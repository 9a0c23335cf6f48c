//! Decimal notation for integers: printing `u64`/`i64` values and parsing
//! them back, verified against a sequence-level model, with a round-trip
//! lemma. Parsing follows `str::parse::<i64>`: an optional sign, then one
//! or more ASCII digits, rejected when the value overflows the type.

use vstd::prelude::*;

verus! {

pub open spec fn is_digit(c: char) -> bool {
    48 <= (c as u32) && (c as u32) <= 57
}

/// The numeric value of a digit character.
pub open spec fn digit_of(c: char) -> nat {
    ((c as u32) - 48) as nat
}

pub open spec fn digit_char(d: int) -> char {
    if d == 0 {
        '0'
    } else if d == 1 {
        '1'
    } else if d == 2 {
        '2'
    } else if d == 3 {
        '3'
    } else if d == 4 {
        '4'
    } else if d == 5 {
        '5'
    } else if d == 6 {
        '6'
    } else if d == 7 {
        '7'
    } else if d == 8 {
        '8'
    } else {
        '9'
    }
}

/// The usual decimal notation of a natural number, no sign, no leading
/// zeros (except for zero itself).
pub open spec fn dec_rep(n: nat) -> Seq<char>
    decreases n,
{
    if n < 10 {
        seq![digit_char(n as int)]
    } else {
        dec_rep(n / 10).push(digit_char((n % 10) as int))
    }
}

/// Decimal notation of an integer: a leading minus sign when negative.
pub open spec fn int_rep(x: int) -> Seq<char> {
    if x < 0 {
        seq!['-'] + dec_rep((-x) as nat)
    } else {
        dec_rep(x as nat)
    }
}

pub open spec fn all_digits(s: Seq<char>) -> bool {
    forall|i: int| 0 <= i < s.len() ==> is_digit(s[i])
}

/// The value of a digit string, most significant digit first.
pub open spec fn digits_val(s: Seq<char>) -> nat
    decreases s.len(),
{
    if s.len() == 0 {
        0
    } else {
        digits_val(s.drop_last()) * 10 + digit_of(s.last())
    }
}

/// What `str::parse::<i64>` accepts and returns: an optional `+` or `-`
/// sign, then one or more digits, the value within the bounds of `i64`.
pub open spec fn spec_parse_i64(s: Seq<char>) -> Option<int> {
    let neg = s.len() > 0 && s[0] == '-';
    let ds = if s.len() > 0 && (s[0] == '-' || s[0] == '+') {
        s.drop_first()
    } else {
        s
    };
    if ds.len() > 0 && all_digits(ds) {
        let v = if neg {
            -(digits_val(ds) as int)
        } else {
            digits_val(ds) as int
        };
        if i64::MIN <= v <= i64::MAX {
            Some(v)
        } else {
            None
        }
    } else {
        None
    }
}

// ---------- printing ----------

fn digit_char_of(d: u64) -> (c: char)
    requires
        d < 10,
    ensures
        c == digit_char(d as int),
        is_digit(c),
        digit_of(c) == d,
{
    if d == 0 {
        '0'
    } else if d == 1 {
        '1'
    } else if d == 2 {
        '2'
    } else if d == 3 {
        '3'
    } else if d == 4 {
        '4'
    } else if d == 5 {
        '5'
    } else if d == 6 {
        '6'
    } else if d == 7 {
        '7'
    } else if d == 8 {
        '8'
    } else {
        '9'
    }
}

pub fn u64_to_chars(n: u64) -> (r: Vec<char>)
    ensures
        r@ == dec_rep(n as nat),
    decreases n,
{
    if n < 10 {
        let mut r: Vec<char> = Vec::new();
        r.push(digit_char_of(n));
        proof {
            assert(r@ =~= dec_rep(n as nat));
        }
        r
    } else {
        let mut r = u64_to_chars(n / 10);
        r.push(digit_char_of(n % 10));
        r
    }
}

pub fn i64_to_chars(x: i64) -> (r: Vec<char>)
    ensures
        r@ == int_rep(x as int),
{
    if x >= 0 {
        u64_to_chars(x as u64)
    } else {
        let mag: u64 = if x == i64::MIN {
            9223372036854775808u64
        } else {
            (-x) as u64
        };
        assert(mag as nat == (-(x as int)) as nat);
        let digits = u64_to_chars(mag);
        let mut r: Vec<char> = Vec::new();
        r.push('-');
        let mut ds = digits;
        r.append(&mut ds);
        proof {
            assert(r@ =~= int_rep(x as int));
        }
        r
    }
}

/// The digits of a decimal representation, and its value.
pub proof fn lemma_dec_rep(n: nat)
    ensures
        dec_rep(n).len() >= 1,
        all_digits(dec_rep(n)),
        digits_val(dec_rep(n)) == n,
    decreases n,
{
    if n < 10 {
        let s = seq![digit_char(n as int)];
        assert(s.drop_last() =~= Seq::<char>::empty());
        assert(digits_val(s) == digits_val(s.drop_last()) * 10 + digit_of(s.last()));
        assert(digit_of(digit_char(n as int)) == n);
    } else {
        lemma_dec_rep(n / 10);
        let s = dec_rep(n / 10).push(digit_char((n % 10) as int));
        assert(s.drop_last() =~= dec_rep(n / 10));
        assert(s.last() == digit_char((n % 10) as int));
        assert(digits_val(s) == (n / 10) * 10 + (n % 10));
        assert forall|i: int| 0 <= i < s.len() implies is_digit(s[i]) by {
            if i < s.len() - 1 {
                assert(s[i] == dec_rep(n / 10)[i]);
            }
        }
    }
}

/// Every character of an integer's decimal notation is a digit or the sign.
pub proof fn lemma_int_rep_chars(x: int)
    ensures
        int_rep(x).len() >= 1,
        forall|i: int|
            0 <= i < int_rep(x).len() ==> (is_digit(#[trigger] int_rep(x)[i]) || int_rep(x)[i]
                == '-'),
{
    if x < 0 {
        lemma_dec_rep((-x) as nat);
        assert forall|i: int| 0 <= i < int_rep(x).len() implies (is_digit(
            #[trigger] int_rep(x)[i],
        ) || int_rep(x)[i] == '-') by {
            if i > 0 {
                assert(int_rep(x)[i] == dec_rep((-x) as nat)[i - 1]);
            }
        }
    } else {
        lemma_dec_rep(x as nat);
    }
}

// ---------- parsing ----------

/// Appending digits never shrinks the value.
proof fn lemma_digits_val_prefix(t: Seq<char>, r: Seq<char>)
    ensures
        digits_val(t + r) >= digits_val(t),
    decreases r.len(),
{
    if r.len() == 0 {
        assert(t + r =~= t);
    } else {
        lemma_digits_val_prefix(t, r.drop_last());
        assert((t + r).drop_last() =~= t + r.drop_last());
        assert(digits_val(t + r) == digits_val(t + r.drop_last()) * 10 + digit_of((t + r).last()));
    }
}

/// Parses a digit string with an optional sign, exactly as
/// `str::parse::<i64>` would.
#[verifier::loop_isolation(false)]
pub fn parse_i64_chars(v: &[char]) -> (r: Option<i64>)
    ensures
        match r {
            Some(x) => spec_parse_i64(v@) == Some(x as int),
            None => spec_parse_i64(v@) is None,
        },
{
    let n = v.len();
    let mut start: usize = 0;
    let mut neg = false;
    if n > 0 && v[0] == '-' {
        neg = true;
        start = 1;
    } else if n > 0 && v[0] == '+' {
        start = 1;
    }
    let ghost ds = if v@.len() > 0 && (v@[0] == '-' || v@[0] == '+') {
        v@.drop_first()
    } else {
        v@
    };
    proof {
        assert(ds =~= v@.subrange(start as int, n as int));
    }
    if start >= n {
        return None;
    }
    proof {
        assert(v@.subrange(start as int, start as int) =~= Seq::<char>::empty());
    }
    let mut mag: u64 = 0;
    let mut i: usize = start;
    while i < n
        invariant
            start <= i <= n,
            n == v@.len(),
            ds == v@.subrange(start as int, n as int),
            all_digits(v@.subrange(start as int, i as int)),
            mag as nat == digits_val(v@.subrange(start as int, i as int)),
        decreases n - i,
    {
        let c = v[i];
        let cu = c as u32;
        if !(48 <= cu && cu <= 57) {
            proof {
                assert(ds[i - start] == v@[i as int]);
                assert(!is_digit(ds[i - start]));
            }
            return None;
        }
        let d = (cu - 48) as u64;
        let ghost pre = v@.subrange(start as int, i as int);
        let ghost post = v@.subrange(start as int, i + 1 as int);
        proof {
            assert(post.drop_last() =~= pre);
            assert(post.last() == v@[i as int]);
            assert(digits_val(post) == digits_val(pre) * 10 + d);
        }
        let m10 = match mag.checked_mul(10) {
            Some(m) => m,
            None => {
                proof {
                    overflow_means_none(v@, ds, post, start as int, neg);
                }
                return None;
            },
        };
        let m = match m10.checked_add(d) {
            Some(m) => m,
            None => {
                proof {
                    overflow_means_none(v@, ds, post, start as int, neg);
                }
                return None;
            },
        };
        mag = m;
        i = i + 1;
    }
    proof {
        assert(v@.subrange(start as int, n as int) =~= ds);
    }
    if neg {
        if mag > 9223372036854775808u64 {
            return None;
        }
        if mag == 9223372036854775808u64 {
            return Some(i64::MIN);
        }
        Some(-(mag as i64))
    } else {
        if mag > 9223372036854775807u64 {
            return None;
        }
        Some(mag as i64)
    }
}

/// When the running magnitude no longer fits in `u64`, the full digit
/// string is out of range for `i64` whatever the sign, so parsing fails.
proof fn overflow_means_none(s: Seq<char>, ds: Seq<char>, post: Seq<char>, start: int, neg: bool)
    requires
        0 <= start <= s.len(),
        ds == s.subrange(start, s.len() as int),
        post.is_prefix_of(ds),
        digits_val(post) > u64::MAX,
        neg == (s.len() > 0 && s[0] == '-'),
        ds == (if s.len() > 0 && (s[0] == '-' || s[0] == '+') {
            s.drop_first()
        } else {
            s
        }),
    ensures
        spec_parse_i64(s) is None,
{
    assert(ds =~= post + ds.subrange(post.len() as int, ds.len() as int));
    lemma_digits_val_prefix(post, ds.subrange(post.len() as int, ds.len() as int));
    assert(digits_val(ds) > u64::MAX);
}

/// Printing then parsing an `i64` gives the value back.
pub proof fn lemma_parse_int_rep(x: int)
    requires
        i64::MIN <= x <= i64::MAX,
    ensures
        spec_parse_i64(int_rep(x)) == Some(x),
{
    if x < 0 {
        lemma_dec_rep((-x) as nat);
        let s = int_rep(x);
        assert(s[0] == '-');
        assert(s.drop_first() =~= dec_rep((-x) as nat));
        assert(digits_val(s.drop_first()) == -x);
    } else {
        lemma_dec_rep(x as nat);
        let s = int_rep(x);
        assert(is_digit(s[0]));
        assert(s[0] != '-' && s[0] != '+');
        assert(digits_val(s) == x);
    }
}

} // verus!
