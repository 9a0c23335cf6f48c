//! Deleting a short link: `/delete?id={id}` removes the record, then its
//! index entry. A missing record answers "not found" and touches nothing.

use vstd::prelude::*;
use crate::dec::{dec_rep, u64_to_chars};
use crate::handlers::{Handlers, spec_status_response};
use crate::store::RecordStore;
use crate::text::{chars_to_string, eq_str, spec_split_full, split_full, to_chars};
use crate::url_record::{make_url_key, spec_url_key};
use vstd::string::StringExecFns;

verus! {

/// The identifier named by the query of a delete path, when the path has
/// the form `...?id={nonempty}` with exactly one `?` and one `=`.
pub open spec fn spec_delete_id(path: Seq<char>) -> Option<Seq<char>> {
    let parts = spec_split_full(path, '?');
    if parts.len() != 2 {
        None
    } else {
        let idp = spec_split_full(parts[1], '=');
        if idp.len() != 2 || idp[0] != "id"@ || idp[1].len() == 0 {
            None
        } else {
            Some(idp[1])
        }
    }
}

/// The answer body of a delete: the identifier and the deletion count.
pub open spec fn spec_delete_msg(id: Seq<char>, count: nat) -> Seq<char> {
    "delete ["@ + id + "] result: "@ + dec_rep(count)
}

pub struct DeleteHandler {}

impl DeleteHandler {
    pub fn new() -> (r: DeleteHandler) {
        DeleteHandler {  }
    }

    /// Deletes the record named by the query. A malformed query answers
    /// 400 and asks the store nothing; an id without a record answers 404
    /// and removes nothing, the index included; otherwise the record goes
    /// first and its index entry second, and the answer is 200.
    pub fn handle_delete<S: RecordStore>(store: &mut S, path: &str) -> (r: String)
        ensures
            old(store).obeys() ==> final(store).obeys(),
            spec_delete_id(path@) is None ==> final(store).records() == old(store).records()
                && final(store).index() == old(store).index(),
            old(store).obeys() ==> (spec_delete_id(path@) matches Some(id) ==> {
                &&& !old(store).records().contains_key(spec_url_key(id)) ==> r@
                    == spec_status_response(404, spec_delete_msg(id, 0)) && final(store).records()
                    == old(store).records() && final(store).index() == old(store).index()
                &&& old(store).records().contains_key(spec_url_key(id)) ==> r@
                    == spec_status_response(200, spec_delete_msg(id, 1)) && final(store).records()
                    == old(store).records().remove(spec_url_key(id)) && final(store).index() == old(
                    store,
                ).index().remove(spec_url_key(id))
            }),
    {
        let chars = to_chars(path);
        let parts = split_full(chars.as_slice(), '?');
        if parts.len() != 2 {
            return Handlers::respond_with_status_code(
                400,
                String::from_str("request path invalid"),
            );
        }
        let query = &parts[1];
        assert(query@ == spec_split_full(path@, '?')[1]);
        let idp = split_full(query.as_slice(), '=');
        if idp.len() != 2 || !eq_str(idp[0].as_slice(), "id") {
            return Handlers::respond_with_status_code(400, String::from_str("invalid url id info"));
        }
        let id = &idp[1];
        assert(id@ == spec_split_full(query@, '=')[1]);
        if id.len() == 0 {
            return Handlers::respond_with_status_code(400, String::from_str("missing url id info"));
        }
        let id_str = chars_to_string(id.as_slice());
        let url_key = make_url_key(id_str.as_str());
        match store.del(url_key.as_str()) {
            Ok(count) => {
                let digits = u64_to_chars(count);
                let mut msg = String::from_str("delete [");
                msg.append(id_str.as_str());
                msg.append("] result: ");
                msg.append(chars_to_string(digits.as_slice()).as_str());
                proof {
                    assert(msg@ =~= spec_delete_msg(id@, count as nat));
                }
                if count == 0 {
                    Handlers::respond_with_status_code(404, msg)
                } else {
                    let _ = store.set_remove(url_key.as_str());
                    Handlers::respond_with_status_code(200, msg)
                }
            },
            Err(e) => {
                let mut msg = String::from_str("store err: ");
                msg.append(e.msg.as_str());
                Handlers::respond_with_status_code(500, msg)
            },
        }
    }
}

} // verus!
