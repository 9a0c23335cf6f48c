//! Resolving a short link: `/l/{id}` answers a permanent redirect to the
//! stored URL and bumps the hit counter as a best effort — a failed write
//! of the bumped record never spoils the redirect.

use vstd::prelude::*;
use crate::handlers::{Handlers, spec_redirect_response, spec_status_response};
use crate::store::RecordStore;
use crate::text::{starts_with_str, sub_string, to_chars};
use crate::url_record::{
    make_url_key, spec_bumped, spec_record_json, spec_stored_model, spec_url_key, URLRecord,
};
use vstd::string::StringExecFns;

verus! {

pub struct LinkHandler {}

impl LinkHandler {
    pub fn new() -> (r: LinkHandler) {
        LinkHandler {  }
    }

    /// Follows `/l/{id}`: the stored record's URL is answered as a
    /// permanent redirect and the record is written back with its hit
    /// counter bumped; an unknown id answers 400. A value in the legacy
    /// form serves its text as the URL.
    pub fn handle_link<S: RecordStore>(store: &mut S, path: &str) -> (r: String)
        ensures
            final(store).index() == old(store).index(),
            old(store).obeys() ==> final(store).obeys(),
            !("/l/"@.is_prefix_of(path@)) ==> r@ == spec_status_response(
                400,
                "url id param missing"@,
            ) && final(store).records() == old(store).records(),
            old(store).obeys() && "/l/"@.is_prefix_of(path@) && !old(store).records().contains_key(
                spec_url_key(path@.skip(3)),
            ) ==> r@ == spec_status_response(400, "url record not found"@) && final(store).records() == old(store).records(),
            old(store).obeys() && "/l/"@.is_prefix_of(path@) && old(store).records().contains_key(
                spec_url_key(path@.skip(3)),
            ) ==> r@ == spec_redirect_response(
                spec_stored_model(
                    path@.skip(3),
                    old(store).records()[spec_url_key(path@.skip(3))],
                ).url,
            ) && final(store).records() == old(store).records().insert(
                spec_url_key(
                    spec_stored_model(
                        path@.skip(3),
                        old(store).records()[spec_url_key(path@.skip(3))],
                    ).id,
                ),
                spec_record_json(
                    spec_bumped(
                        spec_stored_model(
                            path@.skip(3),
                            old(store).records()[spec_url_key(path@.skip(3))],
                        ),
                    ),
                ),
            ),
    {
        let chars = to_chars(path);
        if !starts_with_str(chars.as_slice(), "/l/") {
            return Handlers::respond_with_status_code(
                400,
                String::from_str("url id param missing"),
            );
        }
        proof {
            reveal_strlit("/l/");
            assert(chars@.subrange(3, chars@.len() as int) =~= path@.skip(3));
        }
        let id = sub_string(chars.as_slice(), 3, chars.len());
        let url_key = make_url_key(id.as_str());
        match store.get(url_key.as_str()) {
            Ok(Some(value)) => {
                let rec = URLRecord::from_json(id, &value);
                let resp = Handlers::handle_redirect(rec.url.clone());
                let mut rec = rec;
                LinkHandler::link_hits_inc(store, &mut rec);
                resp
            },
            Ok(None) => Handlers::respond_with_status_code(
                400,
                String::from_str("url record not found"),
            ),
            Err(e) => {
                let mut msg = String::from_str("store err: ");
                msg.append(e.msg.as_str());
                Handlers::respond_with_status_code(400, msg)
            },
        }
    }

    /// Bumps the record's hit counter and writes it back under its key.
    /// The write is a best effort: its failure is not surfaced.
    pub fn link_hits_inc<S: RecordStore>(store: &mut S, url_record: &mut URLRecord)
        ensures
            final(store).index() == old(store).index(),
            old(store).obeys() ==> final(store).obeys(),
            final(url_record)@ == spec_bumped(old(url_record)@),
            old(store).obeys() ==> final(store).records() == old(store).records().insert(
                spec_url_key(old(url_record)@.id),
                spec_record_json(spec_bumped(old(url_record)@)),
            ),
    {
        if url_record.hits < i64::MAX {
            url_record.hits = url_record.hits + 1;
        }
        let url_key = make_url_key(url_record.id.as_str());
        let json = url_record.to_json();
        let _ = store.put(url_key.as_str(), json.as_str());
    }
}

} // verus!
