//! Character-level groundwork for the two line parsers: character
//! classes, maximal-run boundaries, and decimal integer tokens.

use vstd::prelude::*;

verus! {

/// Whether `c` is an ASCII decimal digit.
pub open spec fn is_ascii_digit_char(c: char) -> bool {
    48 <= c as u32 <= 57
}

/// Whether `c` is ASCII whitespace (space, tab, newline, carriage
/// return or form feed).
pub open spec fn is_ascii_ws_char(c: char) -> bool {
    c == ' ' || c == '\t' || c == '\n' || c == '\r' || c == '\x0c'
}

/// The numeric value of an ASCII digit.
pub open spec fn digit_val(c: char) -> int {
    c as u32 - 48
}

/// The end of the maximal run of ASCII digits starting at `j`.
pub open spec fn digit_run_end(s: Seq<char>, j: int) -> int
    decreases s.len() - j
        when 0 <= j <= s.len()
{
    if j < s.len() && is_ascii_digit_char(s[j]) {
        digit_run_end(s, j + 1)
    } else {
        j
    }
}

/// The end of the maximal run of ASCII whitespace starting at `j`.
pub open spec fn ws_run_end(s: Seq<char>, j: int) -> int
    decreases s.len() - j
        when 0 <= j <= s.len()
{
    if j < s.len() && is_ascii_ws_char(s[j]) {
        ws_run_end(s, j + 1)
    } else {
        j
    }
}

/// The end of the maximal run of non-whitespace starting at `j`.
pub open spec fn nonws_run_end(s: Seq<char>, j: int) -> int
    decreases s.len() - j
        when 0 <= j <= s.len()
{
    if j < s.len() && !is_ascii_ws_char(s[j]) {
        nonws_run_end(s, j + 1)
    } else {
        j
    }
}

/// The value of a run of ASCII digits read as a decimal number.
pub open spec fn digits_val(t: Seq<char>) -> int
    decreases t.len(),
{
    if t.len() == 0 {
        0
    } else {
        digits_val(t.drop_last()) * 10 + digit_val(t.last())
    }
}

/// Whether `t` is a decimal integer token: an optional sign followed
/// by one or more ASCII digits.
pub open spec fn is_int_token(t: Seq<char>) -> bool {
    if t.len() == 0 {
        false
    } else if t[0] == '+' || t[0] == '-' {
        t.len() >= 2 && (forall|k: int| 1 <= k < t.len() ==> is_ascii_digit_char(#[trigger] t[k]))
    } else {
        forall|k: int| 0 <= k < t.len() ==> is_ascii_digit_char(#[trigger] t[k])
    }
}

/// The signed value of a decimal integer token.
pub open spec fn int_token_val(t: Seq<char>) -> int {
    if t.len() == 0 {
        0
    } else if t[0] == '-' {
        -digits_val(t.skip(1))
    } else if t[0] == '+' {
        digits_val(t.skip(1))
    } else {
        digits_val(t)
    }
}

/// Whether a mathematical integer is representable as an `i32`.
pub open spec fn fits_i32(v: int) -> bool {
    -0x8000_0000 <= v <= 0x7fff_ffff
}

/// A run of digits has a non-negative value.
pub proof fn lemma_digits_val_nonneg(t: Seq<char>)
    requires
        forall|k: int| 0 <= k < t.len() ==> is_ascii_digit_char(#[trigger] t[k]),
    ensures
        digits_val(t) >= 0,
    decreases t.len(),
{
    if t.len() > 0 {
        lemma_digits_val_nonneg(t.drop_last());
    }
}

/// Reading only a prefix of a digit run never yields a larger value.
pub proof fn lemma_digits_val_prefix_le(t: Seq<char>, j: int)
    requires
        0 <= j <= t.len(),
        forall|k: int| 0 <= k < t.len() ==> is_ascii_digit_char(#[trigger] t[k]),
    ensures
        digits_val(t.take(j)) <= digits_val(t),
    decreases t.len(),
{
    if j == t.len() {
        assert(t.take(j) =~= t);
    } else {
        lemma_digits_val_nonneg(t.drop_last());
        assert(t.take(j) =~= t.drop_last().take(j));
        lemma_digits_val_prefix_le(t.drop_last(), j);
    }
}

/// The characters of a string, as an indexable vector.
pub fn chars_of(s: &str) -> (v: Vec<char>)
    ensures
        v@ == s@,
{
    let n = s.unicode_len();
    let mut v: Vec<char> = Vec::new();
    let mut i: usize = 0;
    while i < n
        invariant
            i <= n,
            n == s@.len(),
            v@ =~= s@.take(i as int),
        decreases n - i,
    {
        v.push(s.get_char(i));
        i += 1;
    }
    proof {
        assert(v@ =~= s@);
    }
    v
}

/// The end of the maximal digit run of `v` starting at `j`.
pub fn scan_digits(v: &Vec<char>, j: usize) -> (e: usize)
    requires
        j <= v.len(),
    ensures
        j <= e <= v.len(),
        e as int == digit_run_end(v@, j as int),
        forall|k: int| j <= k < e ==> is_ascii_digit_char(#[trigger] v@[k]),
    decreases v.len() - j,
{
    let mut k = j;
    while k < v.len() && 48 <= v[k] as u32 && v[k] as u32 <= 57
        invariant
            j <= k <= v.len(),
            digit_run_end(v@, j as int) == digit_run_end(v@, k as int),
            forall|t: int| j <= t < k ==> is_ascii_digit_char(#[trigger] v@[t]),
        decreases v.len() - k,
    {
        k += 1;
    }
    k
}

/// The end of the maximal ASCII whitespace run of `v` starting at `j`.
pub fn scan_ws(v: &Vec<char>, j: usize) -> (e: usize)
    requires
        j <= v.len(),
    ensures
        j <= e <= v.len(),
        e as int == ws_run_end(v@, j as int),
        forall|k: int| j <= k < e ==> is_ascii_ws_char(#[trigger] v@[k]),
{
    let mut k = j;
    while k < v.len() && (v[k] == ' ' || v[k] == '\t' || v[k] == '\n' || v[k] == '\r' || v[k]
        == '\x0c')
        invariant
            j <= k <= v.len(),
            ws_run_end(v@, j as int) == ws_run_end(v@, k as int),
            forall|t: int| j <= t < k ==> is_ascii_ws_char(#[trigger] v@[t]),
        decreases v.len() - k,
    {
        k += 1;
    }
    k
}

/// The end of the maximal non-whitespace run of `v` starting at `j`.
pub fn scan_nonws(v: &Vec<char>, j: usize) -> (e: usize)
    requires
        j <= v.len(),
    ensures
        j <= e <= v.len(),
        e as int == nonws_run_end(v@, j as int),
{
    let mut k = j;
    while k < v.len() && !(v[k] == ' ' || v[k] == '\t' || v[k] == '\n' || v[k] == '\r' || v[k]
        == '\x0c')
        invariant
            j <= k <= v.len(),
            nonws_run_end(v@, j as int) == nonws_run_end(v@, k as int),
        decreases v.len() - k,
    {
        k += 1;
    }
    k
}

/// The value of the digit run `v[a..b]` as an `i32`, or `None` where
/// it exceeds `i32::MAX`.
pub fn parse_digits_i32(v: &Vec<char>, a: usize, b: usize) -> (r: Option<i32>)
    requires
        a <= b <= v.len(),
        forall|k: int| a <= k < b ==> is_ascii_digit_char(#[trigger] v@[k]),
    ensures
        match r {
            Some(x) => x >= 0 && x as int == digits_val(v@.subrange(a as int, b as int)),
            None => digits_val(v@.subrange(a as int, b as int)) > 0x7fff_ffff,
        },
{
    let mut k = a;
    let mut acc: u64 = 0;
    while k < b
        invariant
            a <= k <= b <= v.len(),
            forall|t: int| a <= t < b ==> is_ascii_digit_char(#[trigger] v@[t]),
            acc as int == digits_val(v@.subrange(a as int, k as int)),
            acc <= 0x7fff_ffff,
        decreases b - k,
    {
        let d: u32 = v[k] as u32 - 48;
        let acc2: u64 = acc * 10 + d as u64;
        proof {
            let full = v@.subrange(a as int, b as int);
            let next = v@.subrange(a as int, k as int + 1);
            assert(next.drop_last() =~= v@.subrange(a as int, k as int));
            assert(next.last() == v@[k as int]);
            assert(acc2 as int == digits_val(next));
            assert(full.take(k as int + 1 - a) =~= next);
            lemma_digits_val_prefix_le(full, k as int + 1 - a);
        }
        if acc2 > 0x7fff_ffff {
            return None;
        }
        acc = acc2;
        k += 1;
    }
    Some(acc as i32)
}

/// The value of the token `v[a..b]` as an `i32`: `None` where the run
/// is not a decimal integer token or its value does not fit.
#[verifier::loop_isolation(false)]
pub fn parse_int_token_i32(v: &Vec<char>, a: usize, b: usize) -> (r: Option<i32>)
    requires
        a <= b <= v.len(),
    ensures
        match r {
            Some(x) => {
                &&& is_int_token(v@.subrange(a as int, b as int))
                &&& fits_i32(int_token_val(v@.subrange(a as int, b as int)))
                &&& x as int == int_token_val(v@.subrange(a as int, b as int))
            },
            None => {
                let t = v@.subrange(a as int, b as int);
                !(is_int_token(t) && fits_i32(int_token_val(t)))
            },
        },
{
    let ghost t = v@.subrange(a as int, b as int);
    if a == b {
        return None;
    }
    let c0 = v[a];
    let neg = c0 == '-';
    let signed = neg || c0 == '+';
    let ds = if signed {
        a + 1
    } else {
        a
    };
    if ds == b {
        return None;
    }
    proof {
        if signed {
            assert(t.skip(1) =~= v@.subrange(ds as int, b as int));
        } else {
            assert(t =~= v@.subrange(ds as int, b as int));
        }
    }
    let ghost m = v@.subrange(ds as int, b as int);
    // every character after the sign must be a digit
    let mut k = ds;
    while k < b
        invariant
            ds <= k <= b <= v.len(),
            forall|j: int| ds <= j < k ==> is_ascii_digit_char(#[trigger] v@[j]),
        decreases b - k,
    {
        let u = v[k] as u32;
        if !(48 <= u && u <= 57) {
            proof {
                assert(t[k as int - a as int] == v@[k as int]);
                assert(!is_int_token(t));
            }
            return None;
        }
        k += 1;
    }
    // accumulate the magnitude, stopping once it can no longer fit
    let mut acc: u64 = 0;
    k = ds;
    while k < b
        invariant
            ds <= k <= b <= v.len(),
            forall|j: int| ds <= j < b ==> is_ascii_digit_char(#[trigger] v@[j]),
            acc as int == digits_val(v@.subrange(ds as int, k as int)),
            acc <= 0x8000_0000,
        decreases b - k,
    {
        let d: u32 = v[k] as u32 - 48;
        let acc2: u64 = acc * 10 + d as u64;
        proof {
            let next = v@.subrange(ds as int, k as int + 1);
            assert(next.drop_last() =~= v@.subrange(ds as int, k as int));
            assert(next.last() == v@[k as int]);
            assert(acc2 as int == digits_val(next));
            assert(m.take(k as int + 1 - ds) =~= next);
            lemma_digits_val_prefix_le(m, k as int + 1 - ds);
        }
        if acc2 > 0x8000_0000 {
            return None;
        }
        acc = acc2;
        k += 1;
    }
    proof {
        assert(v@.subrange(ds as int, k as int) =~= m);
    }
    if neg {
        let x: i64 = -(acc as i64);
        Some(x as i32)
    } else {
        if acc > 0x7fff_ffff {
            return None;
        }
        Some(acc as i32)
    }
}

} // verus!
