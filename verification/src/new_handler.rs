//! Creating a short link: the request body names the URL, and may name a
//! caller-chosen identifier; without one a random identifier is minted.
//! The URL is percent-decoded and must be well formed; an identifier
//! already present in the index is rejected without touching anything.

use vstd::prelude::*;
use crate::handlers::{Handlers, spec_status_response};
use crate::outside::{
    check_url, is_alnum_char, json_field_of, json_string_field, mint_id, percent_decode,
    percent_decoded, url_wellformed,
};
use crate::store::RecordStore;
use crate::text::{
    chars_to_string, eq_str, spec_split_term, split_term, str_eq_str, to_chars,
};
use crate::url_record::{make_url_key, spec_record_json, spec_url_key, RecordModel, URLRecord};
use vstd::string::{StrSliceExecFns, StringExecFns};

verus! {

// ---------- reading the request body ----------

/// The URL and optional identifier of a form-encoded body, as in
/// `url=http://host&cid=name`: at most the first two `&`-separated
/// parameters are read, each must split on `=` into exactly two pieces,
/// and with a single parameter the URL must have been given.
pub open spec fn spec_form_data(body: Seq<char>) -> Option<(Seq<char>, Seq<char>)> {
    let parts = spec_split_term(body, '&');
    if parts.len() == 0 {
        None
    } else {
        let pp1 = spec_split_term(parts[0], '=');
        if pp1.len() != 2 {
            None
        } else {
            let url1 = if pp1[0] == "url"@ {
                pp1[1]
            } else {
                Seq::<char>::empty()
            };
            let cid1 = if pp1[0] == "cid"@ {
                pp1[1]
            } else {
                Seq::<char>::empty()
            };
            if parts.len() < 2 {
                if url1.len() == 0 {
                    None
                } else {
                    Some((url1, cid1))
                }
            } else {
                let pp2 = spec_split_term(parts[1], '=');
                if pp2.len() != 2 {
                    None
                } else {
                    let url2 = if pp2[0] == "url"@ {
                        pp2[1]
                    } else {
                        url1
                    };
                    let cid2 = if pp2[0] == "cid"@ {
                        pp2[1]
                    } else {
                        cid1
                    };
                    Some((url2, cid2))
                }
            }
        }
    }
}

/// The URL and optional identifier of a JSON body: the `url` member must
/// be a string; a missing `cid` is the empty identifier.
pub open spec fn spec_json_data(body: Seq<char>) -> Option<(Seq<char>, Seq<char>)> {
    match json_field_of(body, "url"@) {
        Some(u) => Some(
            (
                u,
                match json_field_of(body, "cid"@) {
                    Some(c) => c,
                    None => Seq::<char>::empty(),
                },
            ),
        ),
        None => None,
    }
}

/// What a request body yields, selected by its content type.
pub open spec fn spec_url_data(body: Seq<char>, content_type: Seq<char>) -> Option<
    (Seq<char>, Seq<char>),
> {
    if content_type == "application/json"@ {
        spec_json_data(body)
    } else if content_type == "application/x-www-form-urlencoded"@ {
        spec_form_data(body)
    } else {
        None
    }
}

fn get_url_data_from_json_body(json_str: String) -> (r: Result<(String, String), String>)
    ensures
        match r {
            Ok(p) => spec_json_data(json_str@) == Some((p.0@, p.1@)),
            Err(_) => spec_json_data(json_str@) is None,
        },
{
    match json_string_field(json_str.as_str(), "url") {
        Some(u) => {
            let c = match json_string_field(json_str.as_str(), "cid") {
                Some(c) => c,
                None => String::new(),
            };
            Ok((u, c))
        },
        None => Err(String::from_str("missing or invalid url field in JSON")),
    }
}

fn get_url_data_from_form_urlencoded_body(post_body: String) -> (r: Result<
    (String, String),
    String,
>)
    ensures
        match r {
            Ok(p) => spec_form_data(post_body@) == Some((p.0@, p.1@)),
            Err(_) => spec_form_data(post_body@) is None,
        },
{
    proof {
        reveal_strlit("url");
        reveal_strlit("cid");
        assert("url"@ != "cid"@) by {
            assert("url"@[0] == 'u' && "cid"@[0] == 'c');
        }
    }
    let chars = to_chars(post_body.as_str());
    let parts = split_term(chars.as_slice(), '&');
    if parts.len() == 0 {
        return Err(String::from_str("post body invalid (0 parts)"));
    }
    let pp1 = split_term(parts[0].as_slice(), '=');
    if pp1.len() != 2 {
        return Err(String::from_str("invalid parameter, no value found"));
    }
    let mut url: String = String::new();
    let mut cid: String = String::new();
    if eq_str(pp1[0].as_slice(), "url") {
        url = chars_to_string(pp1[1].as_slice());
    } else if eq_str(pp1[0].as_slice(), "cid") {
        cid = chars_to_string(pp1[1].as_slice());
    }
    if parts.len() < 2 {
        if url.unicode_len() == 0 {
            return Err(String::from_str("url param not found"));
        }
        return Ok((url, cid));
    }
    let pp2 = split_term(parts[1].as_slice(), '=');
    if pp2.len() != 2 {
        return Err(String::from_str("invalid parameter, no value found"));
    }
    if eq_str(pp2[0].as_slice(), "url") {
        url = chars_to_string(pp2[1].as_slice());
    } else if eq_str(pp2[0].as_slice(), "cid") {
        cid = chars_to_string(pp2[1].as_slice());
    }
    Ok((url, cid))
}

/// Reads the URL and the optional caller-chosen identifier out of the
/// request body, as the content type directs.
pub fn get_url_data_from_post_body(post_body: String, content_type: String) -> (r: Result<
    (String, String),
    String,
>)
    ensures
        match r {
            Ok(p) => spec_url_data(post_body@, content_type@) == Some((p.0@, p.1@)),
            Err(_) => spec_url_data(post_body@, content_type@) is None,
        },
{
    if str_eq_str(content_type.as_str(), "application/json") {
        get_url_data_from_json_body(post_body)
    } else if str_eq_str(content_type.as_str(), "application/x-www-form-urlencoded") {
        get_url_data_from_form_urlencoded_body(post_body)
    } else {
        Err(String::from_str("Invalid content_type"))
    }
}

// ---------- the handler ----------

/// The record a successful creation stores.
pub open spec fn spec_new_record(id: Seq<char>, url: Seq<char>, now: int) -> RecordModel {
    RecordModel { id: id, url: url, timestamp: now, hits: 0 }
}

/// The outcome of a creation that minted its identifier: some ten
/// alphanumeric characters were drawn; a drawn identifier already in the
/// index is rejected like a caller-chosen one, any other is stored.
pub open spec fn spec_minted_outcome(
    id: Seq<char>,
    url: Seq<char>,
    now: int,
    old_index: Set<Seq<char>>,
    old_records: Map<Seq<char>, Seq<char>>,
    new_index: Set<Seq<char>>,
    new_records: Map<Seq<char>, Seq<char>>,
    resp: Seq<char>,
) -> bool {
    &&& id.len() == 10
    &&& forall|k: int| 0 <= k < id.len() ==> is_alnum_char(#[trigger] id[k])
    &&& if old_index.contains(spec_url_key(id)) {
        new_records == old_records && new_index == old_index && resp == spec_status_response(
            400,
            "already exists"@,
        )
    } else {
        new_records == old_records.insert(
            spec_url_key(id),
            spec_record_json(spec_new_record(id, url, now)),
        ) && new_index == old_index.insert(spec_url_key(id)) && resp == spec_status_response(
            200,
            id,
        )
    }
}

pub struct NewHandler {}

impl NewHandler {
    pub fn new() -> (r: NewHandler) {
        NewHandler {  }
    }

    /// Creates a link from the request body at time `now`. A body that
    /// yields no URL, a URL that does not decode or is not well formed,
    /// and an identifier already in the index each answer 400 and store
    /// nothing; otherwise the record is stored under its key and the key
    /// indexed, and the answer carries the identifier.
    pub fn handle_new<S: RecordStore>(
        store: &mut S,
        post_body: String,
        content_type: String,
        now: i64,
    ) -> (r: String)
        ensures
            old(store).obeys() ==> final(store).obeys(),
            spec_url_data(post_body@, content_type@) is None ==> r@ == spec_status_response(
                400,
                "invalid url"@,
            ) && final(store).records() == old(store).records() && final(store).index() == old(store).index(),
            old(store).obeys() ==> (spec_url_data(post_body@, content_type@) matches Some(d) ==> (
            d.1.len() > 0 && old(store).index().contains(spec_url_key(d.1)) ==> final(store).records() == old(store).records() && final(store).index() == old(store).index() && (
            exists|msg: Seq<char>| r@ == spec_status_response(400, msg)))),
            old(store).obeys() ==> (spec_url_data(post_body@, content_type@) matches Some(d) ==> {
                &&& percent_decoded(d.0) is None ==> final(store).records() == old(store).records()
                    && final(store).index() == old(store).index() && r@ == spec_status_response(
                    400,
                    "invalid url"@,
                )
                &&& (percent_decoded(d.0) matches Some(u) ==> {
                    &&& !url_wellformed(u) ==> final(store).records() == old(store).records()
                        && final(store).index() == old(store).index() && (exists|msg: Seq<char>|
                        r@ == spec_status_response(400, msg))
                    &&& url_wellformed(u) && d.1.len() > 0 && !old(store).index().contains(
                        spec_url_key(d.1),
                    ) ==> r@ == spec_status_response(200, d.1) && final(store).records() == old(store).records().insert(
                        spec_url_key(d.1),
                        spec_record_json(spec_new_record(d.1, u, now as int)),
                    ) && final(store).index() == old(store).index().insert(spec_url_key(d.1))
                    &&& url_wellformed(u) && d.1.len() == 0 ==> exists|id: Seq<char>|
                        spec_minted_outcome(
                            id,
                            u,
                            now as int,
                            old(store).index(),
                            old(store).records(),
                            final(store).index(),
                            final(store).records(),
                            r@,
                        )
                })
            }),
    {
        let data = get_url_data_from_post_body(post_body, content_type);
        let (url_raw, custom_id) = match data {
            Ok(p) => p,
            Err(_) => {
                return Handlers::respond_with_status_code(400, String::from_str("invalid url"));
            },
        };
        let url = match percent_decode(url_raw.as_str()) {
            Some(u) => u,
            None => {
                return Handlers::respond_with_status_code(400, String::from_str("invalid url"));
            },
        };
        match check_url(url.as_str()) {
            Ok(_) => {},
            Err(e) => {
                return Handlers::respond_with_status_code(400, e);
            },
        }
        let minted = custom_id.unicode_len() == 0;
        let new_id = if minted {
            mint_id()
        } else {
            custom_id
        };
        let url_key = make_url_key(new_id.as_str());
        let id_inuse = match store.set_is_member(url_key.as_str()) {
            Ok(b) => b,
            Err(e) => {
                let mut msg = String::from_str("store err: ");
                msg.append(e.msg.as_str());
                return Handlers::respond_with_status_code(500, msg);
            },
        };
        if id_inuse {
            let resp = Handlers::respond_with_status_code(400, String::from_str("already exists"));
            proof {
                if old(store).obeys() && minted {
                    assert(spec_minted_outcome(
                        new_id@,
                        url@,
                        now as int,
                        old(store).index(),
                        old(store).records(),
                        store.index(),
                        store.records(),
                        resp@,
                    ));
                }
            }
            return resp;
        }
        let ghost gid = new_id@;
        let ghost gurl = url@;
        let rec = URLRecord { id: new_id.clone(), url: url, timestamp: now, hits: 0 };
        let json = rec.to_json();
        match store.put(url_key.as_str(), json.as_str()) {
            Ok(_) => {},
            Err(e) => {
                let mut msg = String::from_str("store err: ");
                msg.append(e.msg.as_str());
                return Handlers::respond_with_status_code(500, msg);
            },
        }
        match store.set_add(url_key.as_str()) {
            Ok(_) => {},
            Err(e) => {
                let mut msg = String::from_str("store err: ");
                msg.append(e.msg.as_str());
                return Handlers::respond_with_status_code(500, msg);
            },
        }
        let resp = Handlers::respond_with_status_code(200, new_id);
        proof {
            if old(store).obeys() && minted {
                assert(spec_minted_outcome(
                    gid,
                    gurl,
                    now as int,
                    old(store).index(),
                    old(store).records(),
                    store.index(),
                    store.records(),
                    resp@,
                ));
            }
        }
        resp
    }
}

} // verus!
