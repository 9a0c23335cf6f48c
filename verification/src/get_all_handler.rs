//! Listing all links: every indexed member is fetched and read; an entry
//! whose fetch fails or whose key is not of the form `short_url::{id}` is
//! skipped, and skipping it never aborts the rest of the listing.

use vstd::prelude::*;
use crate::handlers::{Handlers, spec_json_response};
use crate::store::RecordStore;
use crate::text::{sub_string, to_chars};
use crate::url_record::{spec_record_json, spec_stored_model, RecordModel, URLRecord};
use vstd::string::StringExecFns;

verus! {

/// Index of the first `::` at or after `from`.
pub open spec fn spec_find_sep(s: Seq<char>, from: int) -> Option<int>
    decreases s.len() - from,
{
    if from < 0 || from + 1 >= s.len() {
        None
    } else if s[from] == ':' && s[from + 1] == ':' {
        Some(from)
    } else {
        spec_find_sep(s, from + 1)
    }
}

/// The identifier a store key names, when the key splits on `::` into
/// exactly two parts, as `short_url::{id}` does.
pub open spec fn spec_key_id(key: Seq<char>) -> Option<Seq<char>> {
    match spec_find_sep(key, 0) {
        Some(i) => {
            let rest = key.subrange(i + 2, key.len() as int);
            if spec_find_sep(rest, 0) is Some {
                None
            } else {
                Some(rest)
            }
        },
        None => None,
    }
}

proof fn lemma_find_sep_bounds(s: Seq<char>, from: int)
    requires
        0 <= from <= s.len(),
    ensures
        spec_find_sep(s, from) matches Some(i) ==> from <= i && i + 1 < s.len() && s[i] == ':'
            && s[i + 1] == ':',
    decreases s.len() - from,
{
    if from + 1 < s.len() && !(s[from] == ':' && s[from + 1] == ':') {
        lemma_find_sep_bounds(s, from + 1);
    }
}

fn find_sep(v: &[char], from: usize) -> (r: Option<usize>)
    requires
        from <= v@.len(),
    ensures
        match r {
            Some(i) => spec_find_sep(v@, from as int) == Some(i as int) && from <= i && i + 1
                < v@.len(),
            None => spec_find_sep(v@, from as int) is None,
        },
{
    let n = v.len();
    let mut i: usize = from;
    while i < n && i + 1 < n
        invariant
            from <= i,
            n == v@.len(),
            i <= n,
            spec_find_sep(v@, from as int) == spec_find_sep(v@, i as int),
        decreases n - i,
    {
        if v[i] == ':' && v[i + 1] == ':' {
            return Some(i);
        }
        i = i + 1;
    }
    None
}

/// Reads the identifier out of a store key of the shape `short_url::{id}`.
pub fn key_id(v: &[char]) -> (r: Option<String>)
    ensures
        match r {
            Some(s) => spec_key_id(v@) == Some(s@),
            None => spec_key_id(v@) is None,
        },
{
    let n = v.len();
    match find_sep(v, 0) {
        Some(i) => {
            let rest = sub_string(v, i + 2, n);
            let rest_chars = to_chars(rest.as_str());
            match find_sep(rest_chars.as_slice(), 0) {
                Some(_) => None,
                None => Some(rest),
            }
        },
        None => None,
    }
}

// ---------- what survives the listing ----------

/// An entry survives when its fetch succeeded and its key has the
/// expected shape.
pub open spec fn spec_good_fetch(key: Seq<char>, fetched: Option<Seq<char>>) -> bool {
    fetched is Some && spec_key_id(key) is Some
}

/// The record a surviving entry stands for.
pub open spec fn spec_fetch_model(key: Seq<char>, v: Seq<char>) -> RecordModel {
    spec_stored_model(spec_key_id(key)->Some_0, v)
}

/// The records of the entries that survive, in their order.
pub open spec fn spec_records_of(s: Seq<(Seq<char>, Option<Seq<char>>)>) -> Seq<RecordModel>
    decreases s.len(),
{
    if s.len() == 0 {
        Seq::empty()
    } else {
        let rest = spec_records_of(s.drop_last());
        if spec_good_fetch(s.last().0, s.last().1) {
            rest.push(spec_fetch_model(s.last().0, s.last().1->Some_0))
        } else {
            rest
        }
    }
}

/// How many entries survive.
pub open spec fn spec_good_count(s: Seq<(Seq<char>, Option<Seq<char>>)>) -> nat
    decreases s.len(),
{
    if s.len() == 0 {
        0
    } else {
        spec_good_count(s.drop_last()) + (if spec_good_fetch(s.last().0, s.last().1) {
            1nat
        } else {
            0nat
        })
    }
}

/// A listing skips exactly the bad entries: it returns one record for
/// every entry whose fetch and key shape are good, so a bad entry never
/// aborts the rest or costs more than itself.
pub proof fn lemma_listing_skips_only_bad(s: Seq<(Seq<char>, Option<Seq<char>>)>)
    ensures
        spec_records_of(s).len() == spec_good_count(s),
        forall|i: int|
            0 <= i < s.len() && #[trigger] spec_good_fetch(s[i].0, s[i].1) ==> spec_records_of(
                s,
            ).contains(spec_fetch_model(s[i].0, s[i].1->Some_0)),
    decreases s.len(),
{
    if s.len() > 0 {
        lemma_listing_skips_only_bad(s.drop_last());
        let rest = spec_records_of(s.drop_last());
        let out = spec_records_of(s);
        assert forall|i: int|
            0 <= i < s.len() && #[trigger] spec_good_fetch(s[i].0, s[i].1) implies out.contains(
            spec_fetch_model(s[i].0, s[i].1->Some_0),
        ) by {
            let m = spec_fetch_model(s[i].0, s[i].1->Some_0);
            if i < s.len() - 1 {
                assert(s.drop_last()[i] == s[i]);
                assert(rest.contains(m));
                let j = choose|j: int| 0 <= j < rest.len() && rest[j] == m;
                assert(out[j] == m);
            } else {
                assert(out.last() == m);
            }
        }
    }
}

/// The records read from fetched entries, bad entries skipped.
pub open spec fn fetch_view(p: (String, Option<String>)) -> (Seq<char>, Option<Seq<char>>) {
    (
        p.0@,
        match p.1 {
            Some(s) => Some(s@),
            None => None,
        },
    )
}

/// Turns fetched entries into records, skipping each entry whose fetch
/// failed or whose key is malformed and keeping all others, in order.
pub fn records_of_fetches(pairs: Vec<(String, Option<String>)>) -> (r: Vec<URLRecord>)
    ensures
        r@.map_values(|x: URLRecord| x@) == spec_records_of(
            pairs@.map_values(|p: (String, Option<String>)| fetch_view(p)),
        ),
{
    let ghost pview = pairs@.map_values(|p: (String, Option<String>)| fetch_view(p));
    let mut out: Vec<URLRecord> = Vec::new();
    let n = pairs.len();
    let mut i: usize = 0;
    proof {
        assert(pview.subrange(0, 0) =~= Seq::<(Seq<char>, Option<Seq<char>>)>::empty());
    }
    while i < n
        invariant
            i <= n,
            n == pairs@.len(),
            pview == pairs@.map_values(|p: (String, Option<String>)| fetch_view(p)),
            out@.map_values(|x: URLRecord| x@) == spec_records_of(pview.subrange(0, i as int)),
        decreases n - i,
    {
        let ghost pre = pview.subrange(0, i as int);
        let ghost post = pview.subrange(0, i + 1 as int);
        proof {
            assert(post.drop_last() =~= pre);
            assert(post.last() == pview[i as int]);
        }
        let key = &pairs[i].0;
        match &pairs[i].1 {
            Some(value) => {
                let key_chars = to_chars(key.as_str());
                match key_id(key_chars.as_slice()) {
                    Some(id) => {
                        let rec = URLRecord::from_json(id, value);
                        out.push(rec);
                        proof {
                            assert(out@.map_values(|x: URLRecord| x@) =~= spec_records_of(pre).push(
                                spec_fetch_model(pview[i as int].0, pview[i as int].1->Some_0),
                            ));
                        }
                    },
                    None => {
                        proof {
                            assert(!spec_good_fetch(pview[i as int].0, pview[i as int].1));
                        }
                    },
                }
            },
            None => {
                proof {
                    assert(!spec_good_fetch(pview[i as int].0, pview[i as int].1));
                }
            },
        }
        i = i + 1;
    }
    proof {
        assert(pview.subrange(0, n as int) =~= pview);
    }
    out
}

// ---------- the JSON array ----------

/// The members of the JSON array, comma separated.
pub open spec fn spec_json_items(ms: Seq<RecordModel>) -> Seq<char>
    decreases ms.len(),
{
    if ms.len() == 0 {
        Seq::<char>::empty()
    } else if ms.len() == 1 {
        spec_record_json(ms[0])
    } else {
        spec_json_items(ms.drop_last()) + ","@ + spec_record_json(ms.last())
    }
}

/// The JSON array of records.
pub open spec fn spec_json_array(ms: Seq<RecordModel>) -> Seq<char> {
    "["@ + spec_json_items(ms) + "]"@
}

/// Writes the records as a JSON array.
pub fn json_of_records(records: &Vec<URLRecord>) -> (r: String)
    ensures
        r@ == spec_json_array(records@.map_values(|x: URLRecord| x@)),
{
    let ghost ms = records@.map_values(|x: URLRecord| x@);
    let mut s = String::from_str("[");
    let n = records.len();
    let mut i: usize = 0;
    proof {
        assert(ms.subrange(0, 0) =~= Seq::<RecordModel>::empty());
        assert(s@ =~= "["@ + spec_json_items(ms.subrange(0, 0)));
    }
    while i < n
        invariant
            i <= n,
            n == records@.len(),
            ms == records@.map_values(|x: URLRecord| x@),
            s@ == "["@ + spec_json_items(ms.subrange(0, i as int)),
        decreases n - i,
    {
        let ghost pre = ms.subrange(0, i as int);
        let ghost post = ms.subrange(0, i + 1 as int);
        proof {
            assert(post.drop_last() =~= pre);
            assert(post.last() == ms[i as int]);
        }
        if i > 0 {
            s.append(",");
        }
        let item = records[i].to_json();
        s.append(item.as_str());
        proof {
            if i == 0 {
                assert(post.len() == 1 && post[0] == ms[0]);
                assert(s@ =~= "["@ + spec_json_items(post));
            } else {
                assert(s@ =~= "["@ + spec_json_items(post));
            }
        }
        i = i + 1;
    }
    s.append("]");
    proof {
        assert(ms.subrange(0, n as int) =~= ms);
        assert(s@ =~= spec_json_array(ms));
    }
    s
}

// ---------- the handler ----------

/// What the listing answered, for some enumeration `ms` of the index:
/// each member once, paired with its stored value when it has one, and
/// the response text built from exactly the surviving records.
pub open spec fn spec_listing_witness(
    ms: Seq<(Seq<char>, Option<Seq<char>>)>,
    index: Set<Seq<char>>,
    records: Map<Seq<char>, Seq<char>>,
    resp: Seq<char>,
) -> bool {
    &&& forall|i: int|
        0 <= i < ms.len() ==> index.contains((#[trigger] ms[i]).0) && ms[i].1 == (
        if records.contains_key(ms[i].0) {
            Some(records[ms[i].0])
        } else {
            None
        })
    &&& forall|m: Seq<char>|
        index.contains(m) ==> exists|i: int| 0 <= i < ms.len() && (#[trigger] ms[i]).0 == m
    &&& forall|i: int, j: int| 0 <= i < j < ms.len() ==> ms[i].0 != ms[j].0
    &&& resp == spec_json_response(200, spec_json_array(spec_records_of(ms)))
}

pub struct GetAllHandler {}

impl GetAllHandler {
    pub fn new() -> (r: GetAllHandler) {
        GetAllHandler {  }
    }

    /// Lists every stored record the index names: each member is fetched
    /// and read, one bad entry is skipped without aborting the rest, and
    /// the survivors are answered as a JSON array.
    #[verifier::loop_isolation(false)]
    pub fn handle_get_all<S: RecordStore>(store: &mut S) -> (r: String)
        ensures
            final(store).records() == old(store).records(),
            final(store).index() == old(store).index(),
            final(store).obeys() == old(store).obeys(),
            old(store).obeys() ==> exists|ms: Seq<(Seq<char>, Option<Seq<char>>)>|
                spec_listing_witness(ms, old(store).index(), old(store).records(), r@),
    {
        match store.set_members() {
            Err(e) => {
                let mut msg = String::from_str("store err: ");
                msg.append(e.msg.as_str());
                Handlers::respond_with_status_code(500, msg)
            },
            Ok(members) => {
                let ghost members0 = members@;
                let mut fetches: Vec<(String, Option<String>)> = Vec::new();
                let n = members.len();
                let mut i: usize = 0;
                while i < n
                    invariant
                        i <= n,
                        fetches@.len() == i,
                        store.records() == old(store).records(),
                        store.index() == old(store).index(),
                        store.obeys() == old(store).obeys(),
                        forall|k: int| 0 <= k < i ==> (#[trigger] fetches@[k]).0 == members0[k],
                        old(store).obeys() ==> forall|k: int|
                            0 <= k < i ==> fetch_view(#[trigger] fetches@[k]).1 == (
                            if old(store).records().contains_key(members0[k]@) {
                                Some(old(store).records()[members0[k]@])
                            } else {
                                None::<Seq<char>>
                            }),
                    decreases n - i,
                {
                    let member = members[i].clone();
                    assert(member == members0[i as int]);
                    let fetched = match store.get(member.as_str()) {
                        Ok(opt) => opt,
                        Err(_) => None,
                    };
                    fetches.push((member, fetched));
                    i = i + 1;
                }
                let ghost fview = fetches@.map_values(
                    |p: (String, Option<String>)| fetch_view(p),
                );
                let records = records_of_fetches(fetches);
                let body = json_of_records(&records);
                let resp = Handlers::json_response(200, body);
                proof {
                    if old(store).obeys() {
                        assert forall|k: int| 0 <= k < fview.len() implies old(store).index().contains((#[trigger] fview[k]).0) by {
                            assert(fview[k].0 == members0[k]@);
                        }
                        assert forall|m: Seq<char>| old(store).index().contains(m) implies exists|
                            k: int,
                        | 0 <= k < fview.len() && (#[trigger] fview[k]).0 == m by {
                            let k = choose|k: int| 0 <= k < members0.len() && members0[k]@ == m;
                            assert(fview[k].0 == m);
                        }
                        assert forall|a: int, b: int| 0 <= a < b < fview.len() implies fview[a].0
                            != fview[b].0 by {
                            assert(members0[a]@ != members0[b]@);
                        }
                        assert(spec_listing_witness(
                            fview,
                            old(store).index(),
                            old(store).records(),
                            resp@,
                        ));
                    }
                }
                resp
            },
        }
    }
}

} // verus!
