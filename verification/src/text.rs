//! Character-level text utilities: trimming, searching, splitting and
//! line handling, each verified against a sequence-level model.

use vstd::prelude::*;
use vstd::slice::{slice_subrange, slice_to_vec};
use vstd::string::StrSliceExecFns;

verus! {

// ---------- character classes ----------

/// ASCII whitespace, the characters this library trims.
pub open spec fn is_ws_char(c: char) -> bool {
    c == ' ' || c == '\t' || c == '\n' || c == '\r' || c == '\u{b}' || c == '\u{c}'
}

/// Trailing padding of a raw request buffer: whitespace or a null byte.
pub open spec fn is_pad_char(c: char) -> bool {
    is_ws_char(c) || c == '\u{0}'
}

pub fn ws_char(c: char) -> (r: bool)
    ensures
        r == is_ws_char(c),
{
    c == ' ' || c == '\t' || c == '\n' || c == '\r' || c == '\u{b}' || c == '\u{c}'
}

pub fn pad_char(c: char) -> (r: bool)
    ensures
        r == is_pad_char(c),
{
    ws_char(c) || c == '\u{0}'
}

// ---------- conversions ----------

/// Copies the characters of a string slice into a vector.
pub fn to_chars(s: &str) -> (r: Vec<char>)
    ensures
        r@ == s@,
{
    let n = s.unicode_len();
    let mut r: Vec<char> = Vec::new();
    let mut i: usize = 0;
    while i < n
        invariant
            i <= n,
            n == s@.len(),
            r@ == s@.subrange(0, i as int),
        decreases n - i,
    {
        r.push(s.get_char(i));
        i = i + 1;
    }
    assert(r@ =~= s@);
    r
}

/// Relies on `String` collecting an iterator of `char`s: the resulting
/// string holds exactly those characters in order.
#[verifier::external_body]
pub(crate) fn chars_to_string(v: &[char]) -> (r: String)
    ensures
        r@ == v@,
{
    v.iter().collect()
}

/// Copies a subrange of a character slice.
pub fn subvec(v: &[char], a: usize, b: usize) -> (r: Vec<char>)
    requires
        a <= b <= v@.len(),
    ensures
        r@ == v@.subrange(a as int, b as int),
{
    slice_to_vec(slice_subrange(v, a, b))
}

/// Owns a subrange of a character slice as a `String`.
pub fn sub_string(v: &[char], a: usize, b: usize) -> (r: String)
    requires
        a <= b <= v@.len(),
    ensures
        r@ == v@.subrange(a as int, b as int),
{
    let part = subvec(v, a, b);
    chars_to_string(part.as_slice())
}

// ---------- comparisons ----------

/// Equality of a character slice and a string slice.
pub fn eq_str(v: &[char], s: &str) -> (r: bool)
    ensures
        r == (v@ == s@),
{
    let n = s.unicode_len();
    if v.len() != n {
        assert(v@ != s@) by {
            assert(v@.len() != s@.len());
        }
        return false;
    }
    let mut i: usize = 0;
    while i < n
        invariant
            i <= n,
            n == s@.len(),
            n == v@.len(),
            forall|k: int| 0 <= k < i ==> v@[k] == s@[k],
        decreases n - i,
    {
        if v[i] != s.get_char(i) {
            return false;
        }
        i = i + 1;
    }
    assert(v@ =~= s@);
    true
}

/// Equality of two string slices.
pub fn str_eq_str(a: &str, b: &str) -> (r: bool)
    ensures
        r == (a@ == b@),
{
    let n = a.unicode_len();
    if b.unicode_len() != n {
        return false;
    }
    let mut i: usize = 0;
    while i < n
        invariant
            i <= n,
            n == a@.len(),
            n == b@.len(),
            forall|k: int| 0 <= k < i ==> a@[k] == b@[k],
        decreases n - i,
    {
        if a.get_char(i) != b.get_char(i) {
            return false;
        }
        i = i + 1;
    }
    assert(a@ =~= b@);
    true
}

/// Equality of two character slices.
pub fn eq_chars(a: &[char], b: &[char]) -> (r: bool)
    ensures
        r == (a@ == b@),
{
    let n = a.len();
    if b.len() != n {
        return false;
    }
    let mut i: usize = 0;
    while i < n
        invariant
            i <= n,
            n == a@.len(),
            n == b@.len(),
            forall|k: int| 0 <= k < i ==> a@[k] == b@[k],
        decreases n - i,
    {
        if a[i] != b[i] {
            return false;
        }
        i = i + 1;
    }
    assert(a@ =~= b@);
    true
}

/// Whether the slice starts with the given string prefix.
pub fn starts_with_str(v: &[char], s: &str) -> (r: bool)
    ensures
        r == s@.is_prefix_of(v@),
{
    let n = s.unicode_len();
    if v.len() < n {
        return false;
    }
    let head = slice_subrange(v, 0, n);
    let r = eq_str(head, s);
    assert(head@ == v@.subrange(0, s@.len() as int));
    r
}

// ---------- trimming ----------

pub open spec fn spec_trim_end_ws(s: Seq<char>) -> Seq<char>
    decreases s.len(),
{
    if s.len() == 0 {
        s
    } else if is_ws_char(s.last()) {
        spec_trim_end_ws(s.drop_last())
    } else {
        s
    }
}

pub open spec fn spec_trim_start_ws(s: Seq<char>) -> Seq<char>
    decreases s.len(),
{
    if s.len() == 0 {
        s
    } else if is_ws_char(s.first()) {
        spec_trim_start_ws(s.drop_first())
    } else {
        s
    }
}

/// Whitespace trimmed from both ends, as `str::trim` does for ASCII text.
pub open spec fn spec_trim_ws(s: Seq<char>) -> Seq<char> {
    spec_trim_start_ws(spec_trim_end_ws(s))
}

/// Trailing padding (whitespace and null bytes) trimmed, the first step of
/// interpreting a raw request buffer.
pub open spec fn spec_trim_end_pad(s: Seq<char>) -> Seq<char>
    decreases s.len(),
{
    if s.len() == 0 {
        s
    } else if is_pad_char(s.last()) {
        spec_trim_end_pad(s.drop_last())
    } else {
        s
    }
}

pub fn trim_end_ws(v: &[char]) -> (r: Vec<char>)
    ensures
        r@ == spec_trim_end_ws(v@),
{
    proof {
        assert(v@.subrange(0, v@.len() as int) =~= v@);
    }
    let mut j: usize = v.len();
    while j > 0 && ws_char(v[j - 1])
        invariant
            j <= v@.len(),
            spec_trim_end_ws(v@) == spec_trim_end_ws(v@.subrange(0, j as int)),
        decreases j,
    {
        proof {
            assert(v@.subrange(0, j as int).drop_last() =~= v@.subrange(0, j - 1 as int));
        }
        j = j - 1;
    }
    proof {
        if j > 0 {
            assert(spec_trim_end_ws(v@.subrange(0, j as int)) == v@.subrange(0, j as int));
        } else {
            assert(v@.subrange(0, 0) =~= Seq::<char>::empty());
        }
    }
    subvec(v, 0, j)
}

pub fn trim_end_pad(v: &[char]) -> (r: Vec<char>)
    ensures
        r@ == spec_trim_end_pad(v@),
{
    proof {
        assert(v@.subrange(0, v@.len() as int) =~= v@);
    }
    let mut j: usize = v.len();
    while j > 0 && pad_char(v[j - 1])
        invariant
            j <= v@.len(),
            spec_trim_end_pad(v@) == spec_trim_end_pad(v@.subrange(0, j as int)),
        decreases j,
    {
        proof {
            assert(v@.subrange(0, j as int).drop_last() =~= v@.subrange(0, j - 1 as int));
        }
        j = j - 1;
    }
    proof {
        if j > 0 {
            assert(spec_trim_end_pad(v@.subrange(0, j as int)) == v@.subrange(0, j as int));
        } else {
            assert(v@.subrange(0, 0) =~= Seq::<char>::empty());
        }
    }
    subvec(v, 0, j)
}

pub fn trim_start_ws(v: &[char]) -> (r: Vec<char>)
    ensures
        r@ == spec_trim_start_ws(v@),
{
    proof {
        assert(v@.subrange(0, v@.len() as int) =~= v@);
    }
    let n = v.len();
    let mut i: usize = 0;
    while i < n && ws_char(v[i])
        invariant
            i <= n,
            n == v@.len(),
            spec_trim_start_ws(v@) == spec_trim_start_ws(v@.subrange(i as int, n as int)),
        decreases n - i,
    {
        proof {
            assert(v@.subrange(i as int, n as int).drop_first() =~= v@.subrange(
                i + 1 as int,
                n as int,
            ));
        }
        i = i + 1;
    }
    proof {
        if i < n {
            assert(spec_trim_start_ws(v@.subrange(i as int, n as int)) == v@.subrange(
                i as int,
                n as int,
            ));
        } else {
            assert(v@.subrange(n as int, n as int) =~= Seq::<char>::empty());
        }
    }
    subvec(v, i, n)
}

pub fn trim_ws(v: &[char]) -> (r: Vec<char>)
    ensures
        r@ == spec_trim_ws(v@),
{
    let e = trim_end_ws(v);
    trim_start_ws(e.as_slice())
}

// ---------- searching ----------

/// Index of the first occurrence of `c` at or after `from`, if any.
pub open spec fn spec_find(s: Seq<char>, from: int, c: char) -> Option<int>
    decreases s.len() - from,
{
    if from < 0 || from >= s.len() {
        None
    } else if s[from] == c {
        Some(from)
    } else {
        spec_find(s, from + 1, c)
    }
}

pub proof fn lemma_spec_find_bounds(s: Seq<char>, from: int, c: char)
    requires
        0 <= from <= s.len(),
    ensures
        spec_find(s, from, c) matches Some(i) ==> from <= i < s.len() && s[i] == c && (forall|k:
            int,
        | from <= k < i ==> s[k] != c),
        spec_find(s, from, c) is None ==> forall|k: int| from <= k < s.len() ==> s[k] != c,
    decreases s.len() - from,
{
    if from < s.len() && s[from] != c {
        lemma_spec_find_bounds(s, from + 1, c);
    }
}

/// The first occurrence is exactly the position whose earlier positions
/// all miss.
pub proof fn lemma_spec_find_exact(s: Seq<char>, from: int, j: int, c: char)
    requires
        0 <= from <= j < s.len(),
        s[j] == c,
        forall|k: int| from <= k < j ==> s[k] != c,
    ensures
        spec_find(s, from, c) == Some(j),
    decreases j - from,
{
    if from < j {
        lemma_spec_find_exact(s, from + 1, j, c);
    }
}

pub fn find_from(v: &[char], from: usize, c: char) -> (r: Option<usize>)
    requires
        from <= v@.len(),
    ensures
        match r {
            Some(i) => from <= i < v@.len() && spec_find(v@, from as int, c) == Some(i as int),
            None => spec_find(v@, from as int, c) is None,
        },
{
    let n = v.len();
    let mut i: usize = from;
    while i < n
        invariant
            from <= i <= n,
            n == v@.len(),
            spec_find(v@, from as int, c) == spec_find(v@, i as int, c),
        decreases n - i,
    {
        if v[i] == c {
            return Some(i);
        }
        i = i + 1;
    }
    None
}

// ---------- splitting ----------

/// The pieces of `s` between occurrences of `c`, separators not included,
/// as `str::split` produces them: one piece more than there are separators.
pub open spec fn spec_split_full(s: Seq<char>, c: char) -> Seq<Seq<char>>
    decreases s.len(),
    via spec_split_full_dec
{
    match spec_find(s, 0, c) {
        Some(i) => seq![s.subrange(0, i)] + spec_split_full(
            s.subrange(i + 1, s.len() as int),
            c,
        ),
        None => seq![s],
    }
}

#[via_fn]
proof fn spec_split_full_dec(s: Seq<char>, c: char) {
    lemma_spec_find_bounds(s, 0, c);
}

/// As `str::split_terminator`: like the full split, but a final empty piece
/// (from a trailing separator or an empty input) is dropped.
pub open spec fn spec_split_term(s: Seq<char>, c: char) -> Seq<Seq<char>> {
    let parts = spec_split_full(s, c);
    if parts.last().len() == 0 {
        parts.drop_last()
    } else {
        parts
    }
}

pub proof fn lemma_split_full_len(s: Seq<char>, c: char)
    ensures
        spec_split_full(s, c).len() >= 1,
    decreases s.len(),
{
    match spec_find(s, 0, c) {
        Some(i) => {
            lemma_spec_find_bounds(s, 0, c);
            lemma_split_full_len(s.subrange(i + 1, s.len() as int), c);
        },
        None => {},
    }
}

pub fn split_full(v: &[char], c: char) -> (r: Vec<Vec<char>>)
    ensures
        r@.map_values(|p: Vec<char>| p@) == spec_split_full(v@, c),
    decreases v@.len(),
{
    let n = v.len();
    match find_from(v, 0, c) {
        Some(i) => {
            let head = subvec(v, 0, i);
            let tail = slice_subrange(v, i + 1, n);
            let mut rest = split_full(tail, c);
            let ghost rest0 = rest@;
            let mut r: Vec<Vec<char>> = Vec::new();
            r.push(head);
            r.append(&mut rest);
            proof {
                let f = |p: Vec<char>| p@;
                let lhs = r@.map_values(f);
                let rhs = spec_split_full(v@, c);
                assert(rhs == seq![v@.subrange(0, i as int)] + spec_split_full(
                    v@.subrange(i + 1, v@.len() as int),
                    c,
                ));
                assert forall|t: int| 0 <= t < lhs.len() implies lhs[t] == rhs[t] by {
                    if t > 0 {
                        assert(r@[t] == rest0[t - 1]);
                    }
                }
                assert(lhs =~= rhs);
            }
            r
        },
        None => {
            let mut r: Vec<Vec<char>> = Vec::new();
            r.push(slice_to_vec(v));
            proof {
                assert(r@.map_values(|p: Vec<char>| p@) =~= spec_split_full(v@, c));
            }
            r
        },
    }
}

/// Split with terminator semantics: a trailing empty piece is dropped.
pub fn split_term(v: &[char], c: char) -> (r: Vec<Vec<char>>)
    ensures
        r@.map_values(|p: Vec<char>| p@) == spec_split_term(v@, c),
{
    let mut parts = split_full(v, c);
    proof {
        lemma_split_full_len(v@, c);
    }
    if parts[parts.len() - 1].len() == 0 {
        let ghost before = parts@;
        parts.pop();
        proof {
            assert(parts@.map_values(|p: Vec<char>| p@) =~= before.map_values(
                |p: Vec<char>| p@,
            ).drop_last());
        }
    }
    parts
}

// ---------- lines ----------

/// One trailing carriage return removed, as `str::lines` does per line.
pub open spec fn spec_strip_cr(s: Seq<char>) -> Seq<char> {
    if s.len() > 0 && s.last() == '\r' {
        s.drop_last()
    } else {
        s
    }
}

/// The lines of `s`, as `str::lines` yields them: split on newlines with a
/// trailing empty line dropped, each line stripped of one trailing `'\r'`.
pub open spec fn spec_lines(s: Seq<char>) -> Seq<Seq<char>> {
    spec_split_term(s, '\n').map_values(|p: Seq<char>| spec_strip_cr(p))
}

pub fn lines_of(v: &[char]) -> (r: Vec<Vec<char>>)
    ensures
        r@.map_values(|p: Vec<char>| p@) == spec_lines(v@),
{
    let raw = split_term(v, '\n');
    let ghost raw0 = raw@;
    let mut r: Vec<Vec<char>> = Vec::new();
    let n = raw.len();
    let mut i: usize = 0;
    while i < n
        invariant
            i <= n,
            n == raw@.len(),
            raw@ == raw0,
            r@.len() == i,
            forall|k: int| 0 <= k < i ==> r@[k]@ == spec_strip_cr(raw0[k]@),
        decreases n - i,
    {
        let mut line = raw[i].clone();
        assert(line@ == raw0[i as int]@);
        if line.len() > 0 && line[line.len() - 1] == '\r' {
            line.pop();
        }
        r.push(line);
        i = i + 1;
    }
    proof {
        let f = |p: Vec<char>| p@;
        let g = |p: Seq<char>| spec_strip_cr(p);
        assert(r@.map_values(f) =~= raw0.map_values(f).map_values(g));
    }
    r
}

} // verus!
