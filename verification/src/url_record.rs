//! The stored link record and its JSON notation. A record is written as
//! an object with `id`, `url`, `timestamp` and `hits` fields; reading
//! accepts exactly that shape and otherwise falls back to the legacy form,
//! where the stored value is the bare URL itself.

use vstd::prelude::*;
use crate::dec::{
    int_rep, i64_to_chars, parse_i64_chars, spec_parse_i64, lemma_int_rep_chars,
    lemma_parse_int_rep,
};
use crate::text::{
    chars_to_string, eq_chars, find_from, lemma_spec_find_exact, spec_find, subvec, to_chars,
};
use vstd::slice::slice_subrange;

verus! {

/// One stored link: a short identifier, the target URL, the creation time
/// in unix seconds, and how often the link was followed.
pub struct URLRecord {
    pub id: String,
    pub url: String,
    pub timestamp: i64,
    pub hits: i64,
}

/// The mathematical content of a record.
pub ghost struct RecordModel {
    pub id: Seq<char>,
    pub url: Seq<char>,
    pub timestamp: int,
    pub hits: int,
}

impl View for URLRecord {
    type V = RecordModel;

    open spec fn view(&self) -> RecordModel {
        RecordModel {
            id: self.id@,
            url: self.url@,
            timestamp: self.timestamp as int,
            hits: self.hits as int,
        }
    }
}

/// Timestamp and hit count of the model fit the machine type.
pub open spec fn valid_model(m: RecordModel) -> bool {
    i64::MIN <= m.timestamp <= i64::MAX && i64::MIN <= m.hits <= i64::MAX
}

// ---------- the skeleton of the notation ----------

pub open spec fn lit_open() -> Seq<char> {
    seq!['{', '"', 'i', 'd', '"', ':', '"']
}

pub open spec fn lit_url() -> Seq<char> {
    seq![',', '"', 'u', 'r', 'l', '"', ':', '"']
}

pub open spec fn lit_ts() -> Seq<char> {
    seq![',', '"', 't', 'i', 'm', 'e', 's', 't', 'a', 'm', 'p', '"', ':']
}

pub open spec fn lit_hits() -> Seq<char> {
    seq!['"', 'h', 'i', 't', 's', '"', ':']
}

// ---------- string escaping ----------

/// A quote or backslash is preceded by a backslash; other characters
/// stand as themselves.
pub open spec fn esc_one(c: char) -> Seq<char> {
    if c == '"' || c == '\\' {
        seq!['\\', c]
    } else {
        seq![c]
    }
}

pub open spec fn spec_escape(s: Seq<char>) -> Seq<char>
    decreases s.len(),
{
    if s.len() == 0 {
        s
    } else {
        esc_one(s.first()) + spec_escape(s.drop_first())
    }
}

pub proof fn lemma_escape_concat(a: Seq<char>, b: Seq<char>)
    ensures
        spec_escape(a + b) == spec_escape(a) + spec_escape(b),
    decreases a.len(),
{
    if a.len() == 0 {
        assert(a + b =~= b);
        assert(spec_escape(a) + spec_escape(b) =~= spec_escape(b));
    } else {
        lemma_escape_concat(a.drop_first(), b);
        assert((a + b).drop_first() =~= a.drop_first() + b);
        assert((a + b).first() == a.first());
        assert(esc_one(a.first()) + (spec_escape(a.drop_first()) + spec_escape(b)) =~= (esc_one(
            a.first(),
        ) + spec_escape(a.drop_first())) + spec_escape(b));
    }
}

fn escape_chars(v: &[char]) -> (r: Vec<char>)
    ensures
        r@ == spec_escape(v@),
{
    let n = v.len();
    let mut r: Vec<char> = Vec::new();
    let mut i: usize = 0;
    proof {
        assert(v@.subrange(0, 0) =~= Seq::<char>::empty());
    }
    while i < n
        invariant
            i <= n,
            n == v@.len(),
            r@ == spec_escape(v@.subrange(0, i as int)),
        decreases n - i,
    {
        let c = v[i];
        if c == '"' || c == '\\' {
            r.push('\\');
            r.push(c);
        } else {
            r.push(c);
        }
        proof {
            let pre = v@.subrange(0, i as int);
            let post = v@.subrange(0, i + 1 as int);
            assert(post =~= pre + seq![v@[i as int]]);
            lemma_escape_concat(pre, seq![v@[i as int]]);
            let single = seq![v@[i as int]];
            assert(spec_escape(single.drop_first()) =~= Seq::<char>::empty());
            assert(spec_escape(single) =~= esc_one(v@[i as int]));
            assert(r@ =~= spec_escape(pre) + esc_one(v@[i as int]));
        }
        i = i + 1;
    }
    proof {
        assert(v@.subrange(0, n as int) =~= v@);
    }
    r
}

// ---------- the notation of a record ----------

/// The JSON text this library writes for a record.
pub open spec fn spec_record_json(m: RecordModel) -> Seq<char> {
    lit_open() + spec_escape(m.id) + seq!['"'] + lit_url() + spec_escape(m.url) + seq!['"']
        + lit_ts() + int_rep(m.timestamp) + seq![','] + lit_hits() + int_rep(m.hits) + seq!['}']
}

// ---------- parsing ----------

/// Position just after `lit`, when `s` carries `lit` at `at`.
pub open spec fn spec_pos_after_lit(s: Seq<char>, at: int, lit: Seq<char>) -> Option<int> {
    if 0 <= at && at + lit.len() <= s.len() && s.subrange(at, at + lit.len()) == lit {
        Some(at + lit.len())
    } else {
        None
    }
}

/// Reads an escaped string body up to its closing quote, undoing the
/// escaping; returns the content and the position after the quote.
pub open spec fn spec_parse_jstring(s: Seq<char>, at: int) -> Option<(Seq<char>, int)>
    decreases s.len() - at,
{
    if at < 0 || at >= s.len() {
        None
    } else if s[at] == '"' {
        Some((Seq::<char>::empty(), at + 1))
    } else if s[at] == '\\' && at + 1 < s.len() && (s[at + 1] == '"' || s[at + 1] == '\\') {
        match spec_parse_jstring(s, at + 2) {
            Some((x, j)) => Some((seq![s[at + 1]] + x, j)),
            None => None,
        }
    } else {
        match spec_parse_jstring(s, at + 1) {
            Some((x, j)) => Some((seq![s[at]] + x, j)),
            None => None,
        }
    }
}

/// Reads an integer written up to the next `stop` character; returns the
/// value and the position after `stop`.
pub open spec fn spec_parse_int_until(s: Seq<char>, at: int, stop: char) -> Option<(int, int)> {
    match spec_find(s, at, stop) {
        Some(j) => match spec_parse_i64(s.subrange(at, j)) {
            Some(x) => Some((x, j + 1)),
            None => None,
        },
        None => None,
    }
}

/// The record written in `s`, when `s` is exactly this library's notation.
pub open spec fn spec_parse_record(s: Seq<char>) -> Option<RecordModel> {
    match spec_pos_after_lit(s, 0, lit_open()) {
        Some(p1) => match spec_parse_jstring(s, p1) {
            Some((idv, p2)) => match spec_pos_after_lit(s, p2, lit_url()) {
                Some(p3) => match spec_parse_jstring(s, p3) {
                    Some((urlv, p4)) => match spec_pos_after_lit(s, p4, lit_ts()) {
                        Some(p5) => match spec_parse_int_until(s, p5, ',') {
                            Some((ts, p6)) => match spec_pos_after_lit(s, p6, lit_hits()) {
                                Some(p7) => match spec_parse_int_until(s, p7, '}') {
                                    Some((h, p8)) => if p8 == s.len() {
                                        Some(
                                            RecordModel {
                                                id: idv,
                                                url: urlv,
                                                timestamp: ts,
                                                hits: h,
                                            },
                                        )
                                    } else {
                                        None
                                    },
                                    None => None,
                                },
                                None => None,
                            },
                            None => None,
                        },
                        None => None,
                    },
                    None => None,
                },
                None => None,
            },
            None => None,
        },
        None => None,
    }
}

// ---------- executable encoding ----------

fn push_lit_open(r: &mut Vec<char>)
    ensures
        final(r)@ == old(r)@ + lit_open(),
{
    r.push('{');
    r.push('"');
    r.push('i');
    r.push('d');
    r.push('"');
    r.push(':');
    r.push('"');
    assert(final(r)@ =~= old(r)@ + lit_open());
}

fn push_lit_url(r: &mut Vec<char>)
    ensures
        final(r)@ == old(r)@ + lit_url(),
{
    r.push(',');
    r.push('"');
    r.push('u');
    r.push('r');
    r.push('l');
    r.push('"');
    r.push(':');
    r.push('"');
    assert(final(r)@ =~= old(r)@ + lit_url());
}

fn push_lit_ts(r: &mut Vec<char>)
    ensures
        final(r)@ == old(r)@ + lit_ts(),
{
    r.push(',');
    r.push('"');
    r.push('t');
    r.push('i');
    r.push('m');
    r.push('e');
    r.push('s');
    r.push('t');
    r.push('a');
    r.push('m');
    r.push('p');
    r.push('"');
    r.push(':');
    assert(final(r)@ =~= old(r)@ + lit_ts());
}

fn push_lit_hits(r: &mut Vec<char>)
    ensures
        final(r)@ == old(r)@ + lit_hits(),
{
    r.push('"');
    r.push('h');
    r.push('i');
    r.push('t');
    r.push('s');
    r.push('"');
    r.push(':');
    assert(final(r)@ =~= old(r)@ + lit_hits());
}

// ---------- executable parsing ----------

fn pos_after_lit(v: &[char], at: usize, lit: &[char]) -> (r: Option<usize>)
    ensures
        match r {
            Some(p) => spec_pos_after_lit(v@, at as int, lit@) == Some(p as int) && at <= p
                <= v@.len(),
            None => spec_pos_after_lit(v@, at as int, lit@) is None,
        },
{
    let n = v.len();
    let m = lit.len();
    if at > n || m > n - at {
        return None;
    }
    let part = slice_subrange(v, at, at + m);
    if eq_chars(part, lit) {
        Some(at + m)
    } else {
        None
    }
}

fn parse_jstring_chars(v: &[char], at: usize) -> (r: Option<(Vec<char>, usize)>)
    ensures
        match r {
            Some(p) => spec_parse_jstring(v@, at as int) == Some((p.0@, p.1 as int)) && at < p.1
                <= v@.len(),
            None => spec_parse_jstring(v@, at as int) is None,
        },
    decreases v@.len() - at,
{
    let n = v.len();
    if at >= n {
        return None;
    }
    let c = v[at];
    if c == '"' {
        let out: Vec<char> = Vec::new();
        assert(out@ =~= Seq::<char>::empty());
        return Some((out, at + 1));
    }
    if c == '\\' && at + 1 < n && (v[at + 1] == '"' || v[at + 1] == '\\') {
        match parse_jstring_chars(v, at + 2) {
            Some((x, j)) => {
                let mut out = x;
                out.insert(0, v[at + 1]);
                proof {
                    let ghost (sx, sj) = spec_parse_jstring(v@, at + 2)->Some_0;
                    assert(out@ =~= seq![v@[at + 1]] + sx);
                }
                return Some((out, j));
            },
            None => {
                return None;
            },
        }
    }
    match parse_jstring_chars(v, at + 1) {
        Some((x, j)) => {
            let mut out = x;
            out.insert(0, c);
            proof {
                let ghost (sx, sj) = spec_parse_jstring(v@, at + 1)->Some_0;
                assert(out@ =~= seq![v@[at as int]] + sx);
            }
            Some((out, j))
        },
        None => None,
    }
}

fn parse_int_until(v: &[char], at: usize, stop: char) -> (r: Option<(i64, usize)>)
    requires
        at <= v@.len(),
    ensures
        match r {
            Some(p) => spec_parse_int_until(v@, at as int, stop) == Some((p.0 as int, p.1 as int))
                && at < p.1 <= v@.len(),
            None => spec_parse_int_until(v@, at as int, stop) is None,
        },
{
    let n = v.len();
    match find_from(v, at, stop) {
        Some(j) => {
            assert(j < n);
            let digits = subvec(v, at, j);
            match parse_i64_chars(digits.as_slice()) {
                Some(x) => Some((x, j + 1)),
                None => None,
            }
        },
        None => None,
    }
}

/// The fields read from this library's notation, when `v` carries it.
pub fn parse_record_chars(v: &[char]) -> (r: Option<URLRecord>)
    ensures
        match r {
            Some(rec) => spec_parse_record(v@) == Some(rec@),
            None => spec_parse_record(v@) is None,
        },
{
    let lit1 = to_chars("{\"id\":\"");
    proof {
        reveal_strlit("{\"id\":\"");
        assert(lit1@ =~= lit_open());
    }
    let p1 = match pos_after_lit(v, 0, lit1.as_slice()) {
        Some(p) => p,
        None => {
            return None;
        },
    };
    let (idv, p2) = match parse_jstring_chars(v, p1) {
        Some(x) => x,
        None => {
            return None;
        },
    };
    let lit2 = to_chars(",\"url\":\"");
    proof {
        reveal_strlit(",\"url\":\"");
        assert(lit2@ =~= lit_url());
    }
    let p3 = match pos_after_lit(v, p2, lit2.as_slice()) {
        Some(p) => p,
        None => {
            return None;
        },
    };
    let (urlv, p4) = match parse_jstring_chars(v, p3) {
        Some(x) => x,
        None => {
            return None;
        },
    };
    let lit3 = to_chars(",\"timestamp\":");
    proof {
        reveal_strlit(",\"timestamp\":");
        assert(lit3@ =~= lit_ts());
    }
    let p5 = match pos_after_lit(v, p4, lit3.as_slice()) {
        Some(p) => p,
        None => {
            return None;
        },
    };
    let (ts, p6) = match parse_int_until(v, p5, ',') {
        Some(x) => x,
        None => {
            return None;
        },
    };
    let lit4 = to_chars("\"hits\":");
    proof {
        reveal_strlit("\"hits\":");
        assert(lit4@ =~= lit_hits());
    }
    let p7 = match pos_after_lit(v, p6, lit4.as_slice()) {
        Some(p) => p,
        None => {
            return None;
        },
    };
    let (h, p8) = match parse_int_until(v, p7, '}') {
        Some(x) => x,
        None => {
            return None;
        },
    };
    if p8 != v.len() {
        return None;
    }
    let rec = URLRecord {
        id: chars_to_string(idv.as_slice()),
        url: chars_to_string(urlv.as_slice()),
        timestamp: ts,
        hits: h,
    };
    Some(rec)
}

/// The store key of a short identifier.
pub open spec fn spec_url_key(id: Seq<char>) -> Seq<char> {
    "short_url::"@ + id
}

/// Builds the store key of a short identifier.
pub fn make_url_key(id: &str) -> (r: String)
    ensures
        r@ == spec_url_key(id@),
{
    let mut k = <String as vstd::string::StringExecFns>::from_str("short_url::");
    <String as vstd::string::StringExecFns>::append(&mut k, id);
    k
}

/// What a stored value stands for: the record it writes in this library's
/// notation, or the legacy reading — the bare URL with the caller's `id`.
pub open spec fn spec_stored_model(id: Seq<char>, v: Seq<char>) -> RecordModel {
    match spec_parse_record(v) {
        Some(m) => m,
        None => RecordModel { id: id, url: v, timestamp: 0, hits: 0 },
    }
}

/// The record after one followed redirect: the hit counter one higher,
/// held at the top of its range rather than wrapping.
pub open spec fn spec_bumped(m: RecordModel) -> RecordModel {
    RecordModel {
        id: m.id,
        url: m.url,
        timestamp: m.timestamp,
        hits: if m.hits < i64::MAX {
            m.hits + 1
        } else {
            m.hits
        },
    }
}

// ---------- the round trip ----------

/// What a concatenation carries at position `p`: the head piece, then the
/// rest.
proof fn lemma_subrange_after(s: Seq<char>, p: int, pre: Seq<char>, suf: Seq<char>)
    requires
        0 <= p <= s.len(),
        s.subrange(p, s.len() as int) == pre + suf,
    ensures
        p + pre.len() <= s.len(),
        s.subrange(p, p + pre.len()) == pre,
        s.subrange(p + pre.len(), s.len() as int) == suf,
{
    assert(s.subrange(p, s.len() as int).len() == s.len() - p);
    assert(s.len() - p == pre.len() + suf.len());
    assert(s.subrange(p, p + pre.len()) =~= pre) by {
        assert forall|i: int| 0 <= i < pre.len() implies s.subrange(p, p + pre.len())[i]
            == pre[i] by {
            assert(s[p + i] == s.subrange(p, s.len() as int)[i]);
        }
    }
    assert(s.subrange(p + pre.len(), s.len() as int) =~= suf) by {
        assert forall|i: int| 0 <= i < suf.len() implies s.subrange(
            p + pre.len(),
            s.len() as int,
        )[i] == suf[i] by {
            assert(s[p + pre.len() + i] == s.subrange(p, s.len() as int)[pre.len() + i]);
        }
    }
}

/// Reading an escaped string body undoes the escaping: from the start of
/// `spec_escape(x)` followed by the closing quote, parsing yields `x` and
/// stops just after that quote.
proof fn lemma_parse_jstring_escaped(s: Seq<char>, at: int, x: Seq<char>, rest: Seq<char>)
    requires
        0 <= at <= s.len(),
        s.subrange(at, s.len() as int) == spec_escape(x) + seq!['"'] + rest,
    ensures
        spec_parse_jstring(s, at) == Some((x, at + spec_escape(x).len() + 1)),
    decreases x.len(),
{
    let tail = s.subrange(at, s.len() as int);
    assert(tail.len() == spec_escape(x).len() + 1 + rest.len());
    if x.len() == 0 {
        assert(spec_escape(x).len() == 0);
        assert(s[at] == tail[0]);
        assert(tail[0] == '"');
    } else {
        let c = x.first();
        let x2 = x.drop_first();
        assert(spec_escape(x) == esc_one(c) + spec_escape(x2));
        if c == '"' || c == '\\' {
            assert(esc_one(c) =~= seq!['\\', c]);
            assert(s[at] == tail[0] && tail[0] == '\\');
            assert(s[at + 1] == tail[1] && tail[1] == c);
            assert(tail =~= seq!['\\', c] + (spec_escape(x2) + seq!['"'] + rest));
            lemma_subrange_after(s, at, seq!['\\', c], spec_escape(x2) + seq!['"'] + rest);
            lemma_parse_jstring_escaped(s, at + 2, x2, rest);
            assert(seq![s[at + 1]] + x2 =~= x);
        } else {
            assert(esc_one(c) =~= seq![c]);
            assert(s[at] == tail[0] && tail[0] == c);
            assert(tail =~= seq![c] + (spec_escape(x2) + seq!['"'] + rest));
            lemma_subrange_after(s, at, seq![c], spec_escape(x2) + seq!['"'] + rest);
            lemma_parse_jstring_escaped(s, at + 1, x2, rest);
            assert(seq![s[at]] + x2 =~= x);
        }
    }
}

/// Reading an integer written before its stop character gives the value
/// back and stops just after the stop character.
proof fn lemma_parse_int_until_rep(s: Seq<char>, at: int, x: int, stop: char, rest: Seq<char>)
    requires
        0 <= at <= s.len(),
        i64::MIN <= x <= i64::MAX,
        !crate::dec::is_digit(stop),
        stop != '-',
        s.subrange(at, s.len() as int) == int_rep(x) + seq![stop] + rest,
    ensures
        spec_parse_int_until(s, at, stop) == Some((x, at + int_rep(x).len() + 1)),
{
    let rep = int_rep(x);
    let tail = s.subrange(at, s.len() as int);
    lemma_int_rep_chars(x);
    assert(tail =~= rep + (seq![stop] + rest));
    lemma_subrange_after(s, at, rep, seq![stop] + rest);
    let j = at + rep.len();
    assert(s[j] == tail[rep.len() as int]);
    assert(tail[rep.len() as int] == stop);
    assert forall|k: int| at <= k < j implies s[k] != stop by {
        assert(s[k] == tail[k - at]);
        assert(tail[k - at] == rep[k - at]);
    }
    lemma_spec_find_exact(s, at, j, stop);
    assert(s.subrange(at, j) == rep);
    lemma_parse_int_rep(x);
}

/// A stored value that does not begin with an opening brace is never this
/// library's notation, so reading it always takes the legacy path: the
/// value itself becomes the URL, with a zero timestamp.
pub proof fn lemma_scalar_is_legacy(s: Seq<char>)
    requires
        s.len() == 0 || s[0] != '{',
    ensures
        spec_parse_record(s) is None,
{
    if lit_open().len() <= s.len() && s.subrange(0, lit_open().len() as int) == lit_open() {
        assert(s.subrange(0, lit_open().len() as int)[0] == s[0]);
    }
}

/// The round trip: a record written in this library's notation reads back
/// as the very same record.
#[verifier::rlimit(100)]
pub proof fn lemma_record_round_trip(m: RecordModel)
    requires
        valid_model(m),
    ensures
        spec_parse_record(spec_record_json(m)) == Some(m),
{
    let s = spec_record_json(m);
    let r7 = int_rep(m.hits) + seq!['}'] + Seq::<char>::empty();
    let r6 = lit_hits() + r7;
    let r5 = int_rep(m.timestamp) + seq![','] + r6;
    let r4 = lit_ts() + r5;
    let r3 = spec_escape(m.url) + seq!['"'] + r4;
    let r2 = lit_url() + r3;
    let r1 = spec_escape(m.id) + seq!['"'] + r2;
    assert(s =~= lit_open() + r1);
    assert(s.subrange(0, s.len() as int) =~= s);
    lemma_subrange_after(s, 0, lit_open(), r1);
    let p1 = lit_open().len() as int;
    assert(spec_pos_after_lit(s, 0, lit_open()) == Some(p1));
    lemma_parse_jstring_escaped(s, p1, m.id, r2);
    let p2 = p1 + spec_escape(m.id).len() + 1;
    assert(s.subrange(p1, s.len() as int) =~= (spec_escape(m.id) + seq!['"']) + r2);
    lemma_subrange_after(s, p1, spec_escape(m.id) + seq!['"'], r2);
    lemma_subrange_after(s, p2, lit_url(), r3);
    let p3 = p2 + lit_url().len();
    assert(spec_pos_after_lit(s, p2, lit_url()) == Some(p3));
    lemma_parse_jstring_escaped(s, p3, m.url, r4);
    let p4 = p3 + spec_escape(m.url).len() + 1;
    assert(s.subrange(p3, s.len() as int) =~= (spec_escape(m.url) + seq!['"']) + r4);
    lemma_subrange_after(s, p3, spec_escape(m.url) + seq!['"'], r4);
    lemma_subrange_after(s, p4, lit_ts(), r5);
    let p5 = p4 + lit_ts().len();
    assert(spec_pos_after_lit(s, p4, lit_ts()) == Some(p5));
    lemma_parse_int_until_rep(s, p5, m.timestamp, ',', r6);
    let p6 = p5 + int_rep(m.timestamp).len() + 1;
    assert(s.subrange(p5, s.len() as int) =~= (int_rep(m.timestamp) + seq![',']) + r6);
    lemma_subrange_after(s, p5, int_rep(m.timestamp) + seq![','], r6);
    lemma_subrange_after(s, p6, lit_hits(), r7);
    let p7 = p6 + lit_hits().len();
    assert(spec_pos_after_lit(s, p6, lit_hits()) == Some(p7));
    lemma_parse_int_until_rep(s, p7, m.hits, '}', Seq::<char>::empty());
    let p8 = p7 + int_rep(m.hits).len() + 1;
    assert(s.subrange(p7, s.len() as int) == r7);
    assert(p8 == s.len());
    assert(spec_parse_record(s) == Some(
        RecordModel { id: m.id, url: m.url, timestamp: m.timestamp, hits: m.hits },
    ));
}

impl URLRecord {
    /// Writes the record in this library's JSON notation.
    pub fn to_json(&self) -> (r: String)
        ensures
            r@ == spec_record_json(self@),
    {
        let mut out: Vec<char> = Vec::new();
        push_lit_open(&mut out);
        let idc = to_chars(self.id.as_str());
        let mut esc = escape_chars(idc.as_slice());
        out.append(&mut esc);
        out.push('"');
        push_lit_url(&mut out);
        let urlc = to_chars(self.url.as_str());
        let mut esc2 = escape_chars(urlc.as_slice());
        out.append(&mut esc2);
        out.push('"');
        push_lit_ts(&mut out);
        let mut tsc = i64_to_chars(self.timestamp);
        out.append(&mut tsc);
        out.push(',');
        push_lit_hits(&mut out);
        let mut hc = i64_to_chars(self.hits);
        out.append(&mut hc);
        out.push('}');
        proof {
            assert(out@ =~= spec_record_json(self@));
        }
        chars_to_string(out.as_slice())
    }

    /// Reads a stored value back into a record. A value in this library's
    /// notation gives the record it writes; any other value is taken as a
    /// legacy entry, the bare URL itself, with the caller's `id` and a
    /// zero timestamp.
    pub fn from_json(id: String, json: &String) -> (r: URLRecord)
        ensures
            match spec_parse_record(json@) {
                Some(m) => r@ == m,
                None => r@ == (RecordModel {
                    id: id@,
                    url: json@,
                    timestamp: 0,
                    hits: 0,
                }),
            },
    {
        let chars = to_chars(json.as_str());
        match parse_record_chars(chars.as_slice()) {
            Some(rec) => rec,
            None => URLRecord { id, url: json.clone(), timestamp: 0, hits: 0 },
        }
    }
}

} // verus!
