//! The record-store and session-store collaborators. Each is an interface
//! whose contracts speak over a mathematical model — a map of stored
//! values and the set of indexed members — under an `obeys` flag: an
//! implementation with `obeys() == true` answers exactly as the model
//! says and never fails, while one backed by a remote service leaves
//! `obeys()` false and promises nothing of its answers. The in-memory
//! implementations here are verified and obey their models; they serve
//! tests and any caller that wants a store without a server.

use vstd::prelude::*;
use crate::text::str_eq_str;
use vstd::string::StringExecFns;

verus! {

/// A failure reported by the record store.
#[derive(Debug)]
pub struct StoreError {
    pub msg: String,
}

// ---------- the record store interface ----------

/// The key-value collaborator that holds link records under keys and a
/// set of indexed members. `records()` and `index()` are the model;
/// `obeys()` says whether the implementation's answers are bound to it.
pub trait RecordStore: Sized {
    spec fn records(&self) -> Map<Seq<char>, Seq<char>>;

    spec fn index(&self) -> Set<Seq<char>>;

    spec fn obeys(&self) -> bool;

    /// The value stored under `key`, `None` when the key is absent.
    fn get(&mut self, key: &str) -> (r: Result<Option<String>, StoreError>)
        ensures
            final(self).records() == old(self).records(),
            final(self).index() == old(self).index(),
            final(self).obeys() == old(self).obeys(),
            old(self).obeys() ==> r is Ok && (match r->Ok_0 {
                Some(s) => old(self).records().contains_key(key@) && s@ == old(self).records()[key@],
                None => !old(self).records().contains_key(key@),
            }),
    ;

    /// Stores `value` under `key`, replacing what was there.
    fn put(&mut self, key: &str, value: &str) -> (r: Result<(), StoreError>)
        ensures
            final(self).index() == old(self).index(),
            old(self).obeys() ==> final(self).obeys() && r is Ok && final(self).records() == old(self).records().insert(key@, value@),
    ;

    /// Deletes `key`; the count says whether a record was there.
    fn del(&mut self, key: &str) -> (r: Result<u64, StoreError>)
        ensures
            final(self).index() == old(self).index(),
            old(self).obeys() ==> final(self).obeys() && r is Ok && final(self).records() == old(self).records().remove(key@) && r->Ok_0 == (if old(self).records().contains_key(key@) {
                1u64
            } else {
                0u64
            }),
    ;

    /// Adds `member` to the index set.
    fn set_add(&mut self, member: &str) -> (r: Result<(), StoreError>)
        ensures
            final(self).records() == old(self).records(),
            old(self).obeys() ==> final(self).obeys() && r is Ok && final(self).index() == old(self).index().insert(member@),
    ;

    /// Removes `member` from the index set; the count says whether it was
    /// there.
    fn set_remove(&mut self, member: &str) -> (r: Result<u64, StoreError>)
        ensures
            final(self).records() == old(self).records(),
            old(self).obeys() ==> final(self).obeys() && r is Ok && final(self).index() == old(self).index().remove(member@) && r->Ok_0 == (if old(self).index().contains(member@) {
                1u64
            } else {
                0u64
            }),
    ;

    /// All members of the index set, each exactly once.
    fn set_members(&mut self) -> (r: Result<Vec<String>, StoreError>)
        ensures
            final(self).records() == old(self).records(),
            final(self).index() == old(self).index(),
            final(self).obeys() == old(self).obeys(),
            old(self).obeys() ==> r is Ok && (forall|i: int|
                0 <= i < r->Ok_0@.len() ==> old(self).index().contains(#[trigger] r->Ok_0@[i]@))
                && (forall|m: Seq<char>|
                old(self).index().contains(m) ==> exists|i: int|
                    0 <= i < r->Ok_0@.len() && #[trigger] r->Ok_0@[i]@ == m) && (forall|
                i: int,
                j: int,
            | 0 <= i < j < r->Ok_0@.len() ==> r->Ok_0@[i]@ != r->Ok_0@[j]@),
    ;

    /// Whether `member` is in the index set.
    fn set_is_member(&mut self, member: &str) -> (r: Result<bool, StoreError>)
        ensures
            final(self).records() == old(self).records(),
            final(self).index() == old(self).index(),
            final(self).obeys() == old(self).obeys(),
            old(self).obeys() ==> r is Ok && r->Ok_0 == old(self).index().contains(member@),
    ;
}

// ---------- the session store interface ----------

/// The collaborator that holds session records: for a session key, the
/// creation time of the session as a string.
pub trait SessionStore: Sized {
    spec fn sessions(&self) -> Map<Seq<char>, Seq<char>>;

    spec fn obeys(&self) -> bool;

    /// The stored creation time of the session under `key`, `None` when
    /// the key is absent or the store failed to answer.
    fn get_created_at(&mut self, key: &str) -> (r: Option<String>)
        ensures
            final(self).sessions() == old(self).sessions(),
            final(self).obeys() == old(self).obeys(),
            old(self).obeys() ==> (match r {
                Some(s) => old(self).sessions().contains_key(key@) && s@ == old(self).sessions()[key@],
                None => !old(self).sessions().contains_key(key@),
            }),
    ;
}

// ---------- association lists ----------

/// Keys are pairwise distinct.
pub open spec fn wf_pairs(v: Seq<(String, String)>) -> bool {
    forall|i: int, j: int| 0 <= i < j < v.len() ==> v[i].0@ != v[j].0@
}

/// Entries are pairwise distinct.
pub open spec fn wf_members(v: Seq<String>) -> bool {
    forall|i: int, j: int| 0 <= i < j < v.len() ==> v[i]@ != v[j]@
}

/// The map an association list stands for.
pub open spec fn assoc_map(v: Seq<(String, String)>) -> Map<Seq<char>, Seq<char>> {
    Map::new(
        |k: Seq<char>| exists|i: int| 0 <= i < v.len() && v[i].0@ == k,
        |k: Seq<char>| v[choose|i: int| 0 <= i < v.len() && v[i].0@ == k].1@,
    )
}

/// The set a member list stands for.
pub open spec fn member_set(v: Seq<String>) -> Set<Seq<char>> {
    Set::new(|m: Seq<char>| exists|i: int| 0 <= i < v.len() && v[i]@ == m)
}

proof fn lemma_assoc_lookup(v: Seq<(String, String)>, i: int)
    requires
        wf_pairs(v),
        0 <= i < v.len(),
    ensures
        assoc_map(v).contains_key(v[i].0@),
        assoc_map(v)[v[i].0@] == v[i].1@,
{
    let k = v[i].0@;
    assert(0 <= i < v.len() && v[i].0@ == k);
    let j = choose|j: int| 0 <= j < v.len() && v[j].0@ == k;
    if j < i {
        assert(v[j].0@ != v[i].0@);
        assert(false);
    }
    if i < j {
        assert(v[i].0@ != v[j].0@);
        assert(false);
    }
}

proof fn lemma_assoc_absent(v: Seq<(String, String)>, k: Seq<char>)
    requires
        forall|i: int| 0 <= i < v.len() ==> (#[trigger] v[i]).0@ != k,
    ensures
        !assoc_map(v).contains_key(k),
{
}

proof fn lemma_assoc_push(v: Seq<(String, String)>, kv: (String, String))
    requires
        wf_pairs(v),
        forall|i: int| 0 <= i < v.len() ==> (#[trigger] v[i]).0@ != kv.0@,
    ensures
        wf_pairs(v.push(kv)),
        assoc_map(v.push(kv)) == assoc_map(v).insert(kv.0@, kv.1@),
{
    let w = v.push(kv);
    assert forall|i: int, j: int| 0 <= i < j < w.len() implies w[i].0@ != w[j].0@ by {
        if j < v.len() {
            assert(v[i].0@ != v[j].0@);
        } else {
            assert(w[j] == kv);
            assert(w[i] == v[i]);
        }
    }
    let lhs = assoc_map(w);
    let rhs = assoc_map(v).insert(kv.0@, kv.1@);
    assert forall|k: Seq<char>| lhs.contains_key(k) implies rhs.contains_key(k) by {
        let i = choose|i: int| 0 <= i < w.len() && w[i].0@ == k;
        if i < v.len() {
            assert(v[i].0@ == k);
        }
    }
    assert forall|k: Seq<char>| rhs.contains_key(k) implies lhs.contains_key(k) by {
        if k == kv.0@ {
            assert(w[v.len() as int].0@ == k);
        } else {
            let i = choose|i: int| 0 <= i < v.len() && v[i].0@ == k;
            assert(w[i].0@ == k);
        }
    }
    assert forall|k: Seq<char>| lhs.contains_key(k) implies lhs[k] == rhs[k] by {
        if k == kv.0@ {
            lemma_assoc_lookup(w, v.len() as int);
        } else {
            let i = choose|i: int| 0 <= i < w.len() && w[i].0@ == k;
            assert(i < v.len());
            lemma_assoc_lookup(w, i);
            lemma_assoc_lookup(v, i);
        }
    }
    assert(lhs =~= rhs);
}

proof fn lemma_assoc_remove(v: Seq<(String, String)>, i: int)
    requires
        wf_pairs(v),
        0 <= i < v.len(),
    ensures
        wf_pairs(v.remove(i)),
        assoc_map(v.remove(i)) == assoc_map(v).remove(v[i].0@),
{
    let k = v[i].0@;
    let w = v.remove(i);
    v.remove_ensures(i);
    assert forall|a: int, b: int| 0 <= a < b < w.len() implies w[a].0@ != w[b].0@ by {
        let a2 = if a < i {
            a
        } else {
            a + 1
        };
        let b2 = if b < i {
            b
        } else {
            b + 1
        };
        assert(w[a] == v[a2] && w[b] == v[b2]);
        assert(v[a2].0@ != v[b2].0@);
    }
    let lhs = assoc_map(w);
    let rhs = assoc_map(v).remove(k);
    assert forall|m: Seq<char>| lhs.contains_key(m) implies rhs.contains_key(m) by {
        let a = choose|a: int| 0 <= a < w.len() && w[a].0@ == m;
        let a2 = if a < i {
            a
        } else {
            a + 1
        };
        assert(w[a] == v[a2]);
        assert(v[a2].0@ == m);
        if m == k {
            assert(v[a2].0@ == v[i].0@ && a2 != i);
            if a2 < i {
                assert(v[a2].0@ != v[i].0@);
            } else {
                assert(v[i].0@ != v[a2].0@);
            }
            assert(false);
        }
    }
    assert forall|m: Seq<char>| rhs.contains_key(m) implies lhs.contains_key(m) by {
        let a = choose|a: int| 0 <= a < v.len() && v[a].0@ == m;
        if a < i {
            assert(w[a] == v[a]);
            assert(w[a].0@ == m);
        } else {
            assert(a != i);
            assert(w[a - 1] == v[a]);
            assert(w[a - 1].0@ == m);
        }
    }
    assert forall|m: Seq<char>| lhs.contains_key(m) implies lhs[m] == rhs[m] by {
        let a = choose|a: int| 0 <= a < w.len() && w[a].0@ == m;
        let a2 = if a < i {
            a
        } else {
            a + 1
        };
        assert(w[a] == v[a2]);
        lemma_assoc_lookup(w, a);
        lemma_assoc_lookup(v, a2);
    }
    assert(lhs =~= rhs);
}

proof fn lemma_members_contains(v: Seq<String>, i: int)
    requires
        0 <= i < v.len(),
    ensures
        member_set(v).contains(v[i]@),
{
}

proof fn lemma_members_push(v: Seq<String>, m: String)
    requires
        wf_members(v),
        forall|i: int| 0 <= i < v.len() ==> (#[trigger] v[i])@ != m@,
    ensures
        wf_members(v.push(m)),
        member_set(v.push(m)) == member_set(v).insert(m@),
{
    let w = v.push(m);
    assert forall|i: int, j: int| 0 <= i < j < w.len() implies w[i]@ != w[j]@ by {
        if j < v.len() {
            assert(v[i]@ != v[j]@);
        } else {
            assert(w[j] == m);
            assert(w[i] == v[i]);
        }
    }
    assert forall|x: Seq<char>| member_set(w).contains(x) implies member_set(v).insert(
        m@,
    ).contains(x) by {
        let i = choose|i: int| 0 <= i < w.len() && w[i]@ == x;
        if i < v.len() {
            assert(v[i]@ == x);
        }
    }
    assert forall|x: Seq<char>| member_set(v).insert(m@).contains(x) implies member_set(
        w,
    ).contains(x) by {
        if x == m@ {
            assert(w[v.len() as int]@ == x);
        } else {
            let i = choose|i: int| 0 <= i < v.len() && v[i]@ == x;
            assert(w[i]@ == x);
        }
    }
    assert(member_set(w) =~= member_set(v).insert(m@));
}

proof fn lemma_members_remove(v: Seq<String>, i: int)
    requires
        wf_members(v),
        0 <= i < v.len(),
    ensures
        wf_members(v.remove(i)),
        member_set(v.remove(i)) == member_set(v).remove(v[i]@),
{
    let m = v[i]@;
    let w = v.remove(i);
    v.remove_ensures(i);
    assert forall|a: int, b: int| 0 <= a < b < w.len() implies w[a]@ != w[b]@ by {
        let a2 = if a < i {
            a
        } else {
            a + 1
        };
        let b2 = if b < i {
            b
        } else {
            b + 1
        };
        assert(w[a] == v[a2] && w[b] == v[b2]);
        assert(v[a2]@ != v[b2]@);
    }
    assert forall|x: Seq<char>| member_set(w).contains(x) implies member_set(v).remove(m).contains(
        x,
    ) by {
        let a = choose|a: int| 0 <= a < w.len() && w[a]@ == x;
        let a2 = if a < i {
            a
        } else {
            a + 1
        };
        assert(w[a] == v[a2]);
        assert(v[a2]@ == x);
        if x == m {
            if a2 < i {
                assert(v[a2]@ != v[i]@);
            } else {
                assert(v[i]@ != v[a2]@);
            }
            assert(false);
        }
    }
    assert forall|x: Seq<char>| member_set(v).remove(m).contains(x) implies member_set(w).contains(
        x,
    ) by {
        let a = choose|a: int| 0 <= a < v.len() && v[a]@ == x;
        if a < i {
            assert(w[a] == v[a]);
            assert(w[a]@ == x);
        } else {
            assert(a != i);
            assert(w[a - 1] == v[a]);
            assert(w[a - 1]@ == x);
        }
    }
    assert(member_set(w) =~= member_set(v).remove(m));
}

// ---------- the in-memory record store ----------

/// A record store held in this process: an association list of records
/// and a list of indexed members, both with distinct keys. It obeys its
/// model and never fails.
pub struct InMemoryStore {
    records_vec: Vec<(String, String)>,
    index_vec: Vec<String>,
}

impl InMemoryStore {
    pub fn new() -> (r: InMemoryStore)
        ensures
            r.obeys(),
            r.records() == Map::<Seq<char>, Seq<char>>::empty(),
            r.index() == Set::<Seq<char>>::empty(),
    {
        let r = InMemoryStore { records_vec: Vec::new(), index_vec: Vec::new() };
        proof {
            assert(r.records() =~= Map::<Seq<char>, Seq<char>>::empty());
            assert(r.index() =~= Set::<Seq<char>>::empty());
        }
        r
    }

    fn find_rec(&self, key: &str) -> (r: Option<usize>)
        ensures
            match r {
                Some(i) => i < self.records_vec@.len() && self.records_vec@[i as int].0@ == key@,
                None => forall|i: int|
                    0 <= i < self.records_vec@.len() ==> (
                    #[trigger] self.records_vec@[i]).0@ != key@,
            },
    {
        let n = self.records_vec.len();
        let mut i: usize = 0;
        while i < n
            invariant
                i <= n,
                n == self.records_vec@.len(),
                forall|k: int| 0 <= k < i ==> (#[trigger] self.records_vec@[k]).0@ != key@,
            decreases n - i,
        {
            if str_eq_str(self.records_vec[i].0.as_str(), key) {
                return Some(i);
            }
            i = i + 1;
        }
        None
    }

    fn find_member(&self, member: &str) -> (r: Option<usize>)
        ensures
            match r {
                Some(i) => i < self.index_vec@.len() && self.index_vec@[i as int]@ == member@,
                None => forall|i: int|
                    0 <= i < self.index_vec@.len() ==> (#[trigger] self.index_vec@[i])@ != member@,
            },
    {
        let n = self.index_vec.len();
        let mut i: usize = 0;
        while i < n
            invariant
                i <= n,
                n == self.index_vec@.len(),
                forall|k: int| 0 <= k < i ==> (#[trigger] self.index_vec@[k])@ != member@,
            decreases n - i,
        {
            if str_eq_str(self.index_vec[i].as_str(), member) {
                return Some(i);
            }
            i = i + 1;
        }
        None
    }
}

impl RecordStore for InMemoryStore {
    closed spec fn records(&self) -> Map<Seq<char>, Seq<char>> {
        assoc_map(self.records_vec@)
    }

    closed spec fn index(&self) -> Set<Seq<char>> {
        member_set(self.index_vec@)
    }

    closed spec fn obeys(&self) -> bool {
        wf_pairs(self.records_vec@) && wf_members(self.index_vec@)
    }

    fn get(&mut self, key: &str) -> (r: Result<Option<String>, StoreError>) {
        match self.find_rec(key) {
            Some(i) => {
                proof {
                    if old(self).obeys() {
                        lemma_assoc_lookup(self.records_vec@, i as int);
                    }
                }
                Ok(Some(self.records_vec[i].1.clone()))
            },
            None => {
                proof {
                    lemma_assoc_absent(self.records_vec@, key@);
                }
                Ok(None)
            },
        }
    }

    fn put(&mut self, key: &str, value: &str) -> (r: Result<(), StoreError>) {
        let pair = (String::from_str(key), String::from_str(value));
        match self.find_rec(key) {
            Some(i) => {
                proof {
                    if old(self).obeys() {
                        lemma_assoc_remove(self.records_vec@, i as int);
                        lemma_assoc_lookup(self.records_vec@, i as int);
                    }
                }
                let ghost removed = self.records_vec@.remove(i as int);
                self.records_vec.remove(i);
                proof {
                    if old(self).obeys() {
                        assert forall|t: int|
                            0 <= t < removed.len() implies (#[trigger] removed[t]).0@ != key@ by {
                            old(self).records_vec@.remove_ensures(i as int);
                            let t2 = if t < i as int {
                                t
                            } else {
                                t + 1
                            };
                            assert(removed[t] == old(self).records_vec@[t2]);
                            if t2 < i as int {
                                assert(old(self).records_vec@[t2].0@ != old(self).records_vec@[i as int].0@);
                            } else {
                                assert(old(self).records_vec@[i as int].0@ != old(self).records_vec@[t2].0@);
                            }
                        }
                        lemma_assoc_push(removed, pair);
                    }
                }
                self.records_vec.push(pair);
                proof {
                    if old(self).obeys() {
                        assert(self.records() =~= old(self).records().insert(key@, value@));
                    }
                }
                Ok(())
            },
            None => {
                proof {
                    if old(self).obeys() {
                        lemma_assoc_push(self.records_vec@, pair);
                    }
                }
                self.records_vec.push(pair);
                proof {
                    if old(self).obeys() {
                        assert(self.records() =~= old(self).records().insert(key@, value@));
                    }
                }
                Ok(())
            },
        }
    }

    fn del(&mut self, key: &str) -> (r: Result<u64, StoreError>) {
        match self.find_rec(key) {
            Some(i) => {
                proof {
                    if old(self).obeys() {
                        lemma_assoc_lookup(self.records_vec@, i as int);
                        lemma_assoc_remove(self.records_vec@, i as int);
                    }
                }
                self.records_vec.remove(i);
                Ok(1)
            },
            None => {
                proof {
                    if old(self).obeys() {
                        lemma_assoc_absent(self.records_vec@, key@);
                        assert(self.records() =~= old(self).records().remove(key@));
                    }
                }
                Ok(0)
            },
        }
    }

    fn set_add(&mut self, member: &str) -> (r: Result<(), StoreError>) {
        match self.find_member(member) {
            Some(i) => {
                proof {
                    if old(self).obeys() {
                        lemma_members_contains(self.index_vec@, i as int);
                        assert(self.index() =~= old(self).index().insert(member@));
                    }
                }
                Ok(())
            },
            None => {
                let m = String::from_str(member);
                proof {
                    if old(self).obeys() {
                        lemma_members_push(self.index_vec@, m);
                    }
                }
                self.index_vec.push(m);
                Ok(())
            },
        }
    }

    fn set_remove(&mut self, member: &str) -> (r: Result<u64, StoreError>) {
        match self.find_member(member) {
            Some(i) => {
                proof {
                    if old(self).obeys() {
                        lemma_members_contains(self.index_vec@, i as int);
                        lemma_members_remove(self.index_vec@, i as int);
                    }
                }
                self.index_vec.remove(i);
                Ok(1)
            },
            None => {
                proof {
                    if old(self).obeys() {
                        assert(!old(self).index().contains(member@));
                        assert(self.index() =~= old(self).index().remove(member@));
                    }
                }
                Ok(0)
            },
        }
    }

    fn set_members(&mut self) -> (r: Result<Vec<String>, StoreError>) {
        let n = self.index_vec.len();
        let mut out: Vec<String> = Vec::new();
        let mut i: usize = 0;
        while i < n
            invariant
                i <= n,
                n == self.index_vec@.len(),
                out@.len() == i,
                forall|k: int| 0 <= k < i ==> out@[k] == self.index_vec@[k],
            decreases n - i,
        {
            out.push(self.index_vec[i].clone());
            i = i + 1;
        }
        proof {
            if old(self).obeys() {
                assert forall|m: Seq<char>| old(self).index().contains(m) implies exists|t: int|
                    0 <= t < out@.len() && #[trigger] out@[t]@ == m by {
                    let t = choose|t: int|
                        0 <= t < self.index_vec@.len() && self.index_vec@[t]@ == m;
                    assert(out@[t]@ == m);
                }
                assert forall|t: int| 0 <= t < out@.len() implies old(self).index().contains(
                    #[trigger] out@[t]@,
                ) by {
                    lemma_members_contains(self.index_vec@, t);
                }
                assert forall|a: int, b: int| 0 <= a < b < out@.len() implies out@[a]@
                    != out@[b]@ by {
                    assert(out@[a] == self.index_vec@[a]);
                    assert(out@[b] == self.index_vec@[b]);
                }
            }
        }
        let ghost gout = out@;
        let res: Result<Vec<String>, StoreError> = Ok(out);
        proof {
            assert(res->Ok_0@ == gout);
            if old(self).obeys() {
                assert forall|m: Seq<char>| old(self).index().contains(m) implies exists|t: int|
                    0 <= t < res->Ok_0@.len() && #[trigger] res->Ok_0@[t]@ == m by {
                    let t = choose|t: int|
                        0 <= t < self.index_vec@.len() && self.index_vec@[t]@ == m;
                    assert(0 <= t < gout.len() && gout[t]@ == m);
                    assert(res->Ok_0@[t]@ == m);
                }
            }
        }
        res
    }

    fn set_is_member(&mut self, member: &str) -> (r: Result<bool, StoreError>) {
        match self.find_member(member) {
            Some(i) => {
                proof {
                    lemma_members_contains(self.index_vec@, i as int);
                }
                Ok(true)
            },
            None => {
                proof {
                    assert(!member_set(self.index_vec@).contains(member@));
                }
                Ok(false)
            },
        }
    }
}

// ---------- the in-memory session store ----------

/// A session store held in this process, for tests and local use.
pub struct InMemorySessionStore {
    sessions_vec: Vec<(String, String)>,
}

impl InMemorySessionStore {
    pub fn new() -> (r: InMemorySessionStore)
        ensures
            r.obeys(),
            r.sessions() == Map::<Seq<char>, Seq<char>>::empty(),
    {
        let r = InMemorySessionStore { sessions_vec: Vec::new() };
        proof {
            assert(r.sessions() =~= Map::<Seq<char>, Seq<char>>::empty());
        }
        r
    }

    fn find_session(&self, key: &str) -> (r: Option<usize>)
        ensures
            match r {
                Some(i) => i < self.sessions_vec@.len() && self.sessions_vec@[i as int].0@ == key@,
                None => forall|i: int|
                    0 <= i < self.sessions_vec@.len() ==> (
                    #[trigger] self.sessions_vec@[i]).0@ != key@,
            },
    {
        let n = self.sessions_vec.len();
        let mut i: usize = 0;
        while i < n
            invariant
                i <= n,
                n == self.sessions_vec@.len(),
                forall|k: int| 0 <= k < i ==> (#[trigger] self.sessions_vec@[k]).0@ != key@,
            decreases n - i,
        {
            if str_eq_str(self.sessions_vec[i].0.as_str(), key) {
                return Some(i);
            }
            i = i + 1;
        }
        None
    }

    /// Records a session: `key` was created at `created_at`.
    pub fn put_session(&mut self, key: &str, created_at: &str) -> (r: ())
        requires
            old(self).obeys(),
        ensures
            final(self).obeys(),
            final(self).sessions() == old(self).sessions().insert(key@, created_at@),
    {
        let pair = (String::from_str(key), String::from_str(created_at));
        match self.find_session(key) {
            Some(i) => {
                proof {
                    lemma_assoc_remove(self.sessions_vec@, i as int);
                }
                let ghost removed = self.sessions_vec@.remove(i as int);
                self.sessions_vec.remove(i);
                proof {
                    assert forall|t: int|
                        0 <= t < removed.len() implies (#[trigger] removed[t]).0@ != key@ by {
                        old(self).sessions_vec@.remove_ensures(i as int);
                        let t2 = if t < i as int {
                            t
                        } else {
                            t + 1
                        };
                        assert(removed[t] == old(self).sessions_vec@[t2]);
                        if t2 < i as int {
                            assert(old(self).sessions_vec@[t2].0@ != old(self).sessions_vec@[i as int].0@);
                        } else {
                            assert(old(self).sessions_vec@[i as int].0@ != old(self).sessions_vec@[t2].0@);
                        }
                    }
                    lemma_assoc_push(removed, pair);
                }
                self.sessions_vec.push(pair);
                proof {
                    assert(self.sessions() =~= old(self).sessions().insert(
                        key@,
                        created_at@,
                    ));
                }
            },
            None => {
                proof {
                    lemma_assoc_push(self.sessions_vec@, pair);
                }
                self.sessions_vec.push(pair);
                proof {
                    assert(self.sessions() =~= old(self).sessions().insert(
                        key@,
                        created_at@,
                    ));
                }
            },
        }
    }
}

impl SessionStore for InMemorySessionStore {
    closed spec fn sessions(&self) -> Map<Seq<char>, Seq<char>> {
        assoc_map(self.sessions_vec@)
    }

    closed spec fn obeys(&self) -> bool {
        wf_pairs(self.sessions_vec@)
    }

    fn get_created_at(&mut self, key: &str) -> (r: Option<String>) {
        match self.find_session(key) {
            Some(i) => {
                proof {
                    if old(self).obeys() {
                        lemma_assoc_lookup(self.sessions_vec@, i as int);
                    }
                }
                Some(self.sessions_vec[i].1.clone())
            },
            None => {
                proof {
                    lemma_assoc_absent(self.sessions_vec@, key@);
                }
                None
            },
        }
    }
}

} // verus!
