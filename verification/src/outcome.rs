//! The outcome of one robot's run — final position, heading, and
//! whether the robot was lost — and its fixed textual form
//! `"(x, y, H)"`, followed by `" LOST"` exactly when the robot is lost.

use vstd::prelude::*;

use crate::text::is_ascii_digit_char;
use crate::vocab::{dir_letter, Direction};

verus! {

/// Produced exactly once per robot by the simulator; immutable.
#[derive(Debug, PartialEq, Eq, Structural)]
pub struct Outcome {
    pub x: i32,
    pub y: i32,
    pub direction: Direction,
    pub is_lost: bool,
}

/// The ASCII digit with value `d`.
pub open spec fn digit_char(d: int) -> char {
    if d == 0 {
        '0'
    } else if d == 1 {
        '1'
    } else if d == 2 {
        '2'
    } else if d == 3 {
        '3'
    } else if d == 4 {
        '4'
    } else if d == 5 {
        '5'
    } else if d == 6 {
        '6'
    } else if d == 7 {
        '7'
    } else if d == 8 {
        '8'
    } else {
        '9'
    }
}

/// The decimal rendering of a non-negative number, most significant
/// digit first, with no leading zeros (a single `'0'` for zero).
pub open spec fn dec_digits(n: int) -> Seq<char>
    decreases n
        when n >= 0
{
    if n < 10 {
        seq![digit_char(n)]
    } else {
        dec_digits(n / 10) + seq![digit_char(n % 10)]
    }
}

/// The decimal rendering of an integer, with a leading `'-'` where it
/// is negative.
pub open spec fn int_text(i: int) -> Seq<char> {
    if i < 0 {
        seq!['-'] + dec_digits(-i)
    } else {
        dec_digits(i)
    }
}

/// The fixed `" LOST"` marker.
pub open spec fn lost_marker() -> Seq<char> {
    seq![' ', 'L', 'O', 'S', 'T']
}

/// The position-and-heading part of an outcome's text: `"(x, y, H)"`.
pub open spec fn base_text(o: Outcome) -> Seq<char> {
    seq!['('] + int_text(o.x as int) + seq![',', ' '] + int_text(o.y as int) + seq![
        ',',
        ' ',
        dir_letter(o.direction),
        ')',
    ]
}

/// The full textual form of an outcome: the base text, followed by
/// `" LOST"` exactly when the robot is lost.
pub open spec fn outcome_text(o: Outcome) -> Seq<char> {
    if o.is_lost {
        base_text(o) + lost_marker()
    } else {
        base_text(o)
    }
}

/// The one-character string holding the ASCII digit with value `d`.
fn digit_str(d: u32) -> (r: &'static str)
    requires
        d < 10,
    ensures
        r@ =~= seq![digit_char(d as int)],
{
    let r: &'static str = match d {
        0 => "0",
        1 => "1",
        2 => "2",
        3 => "3",
        4 => "4",
        5 => "5",
        6 => "6",
        7 => "7",
        8 => "8",
        _ => "9",
    };
    proof {
        reveal_strlit("0");
        reveal_strlit("1");
        reveal_strlit("2");
        reveal_strlit("3");
        reveal_strlit("4");
        reveal_strlit("5");
        reveal_strlit("6");
        reveal_strlit("7");
        reveal_strlit("8");
        reveal_strlit("9");
    }
    r
}

/// The decimal rendering of `n`, most significant digit first.
fn u32_text(n: u32) -> (s: String)
    ensures
        s@ == dec_digits(n as int),
    decreases n,
{
    if n < 10 {
        let s = String::from_str(digit_str(n));
        proof {
            assert(s@ =~= dec_digits(n as int));
        }
        s
    } else {
        let mut s = u32_text(n / 10);
        s.append(digit_str(n % 10));
        proof {
            assert(s@ =~= dec_digits(n as int));
        }
        s
    }
}

/// The decimal rendering of `x`, with a leading minus sign where it
/// is negative.
fn i32_text(x: i32) -> (s: String)
    ensures
        s@ == int_text(x as int),
{
    if x < 0 {
        let mag: i64 = -(x as i64);
        let mut s = String::from_str("-");
        let digits = u32_text(mag as u32);
        s.append(digits.as_str());
        proof {
            reveal_strlit("-");
            assert(s@ =~= int_text(x as int));
        }
        s
    } else {
        u32_text(x as u32)
    }
}

impl Outcome {
    /// Renders this outcome in the fixed textual form `"(x, y, H)"`,
    /// followed by a single space and `"LOST"` exactly when the robot
    /// is lost.
    pub fn format(&self) -> (s: String)
        ensures
            s@ == outcome_text(*self),
    {
        let mut s = String::from_str("(");
        let xs = i32_text(self.x);
        s.append(xs.as_str());
        s.append(", ");
        let ys = i32_text(self.y);
        s.append(ys.as_str());
        s.append(", ");
        s.append(self.direction.letter_str());
        s.append(")");
        if self.is_lost {
            s.append(" LOST");
        }
        proof {
            reveal_strlit("(");
            reveal_strlit(", ");
            reveal_strlit(")");
            reveal_strlit(" LOST");
            assert(s@ =~= outcome_text(*self));
        }
        s
    }
}

/// Every character of a decimal rendering is an ASCII digit.
pub proof fn lemma_dec_digits_are_digits(n: int)
    requires
        n >= 0,
    ensures
        dec_digits(n).len() >= 1,
        forall|k: int|
            0 <= k < dec_digits(n).len() ==> is_ascii_digit_char(#[trigger] dec_digits(n)[k]),
    decreases n,
{
    if n >= 10 {
        lemma_dec_digits_are_digits(n / 10);
    }
}

/// Every character of an integer rendering is an ASCII digit or `'-'`.
pub proof fn lemma_int_text_chars(i: int)
    ensures
        int_text(i).len() >= 1,
        forall|k: int|
            0 <= k < int_text(i).len() ==> (#[trigger] int_text(i)[k] == '-'
                || is_ascii_digit_char(int_text(i)[k])),
{
    if i < 0 {
        lemma_dec_digits_are_digits(-i);
    } else {
        lemma_dec_digits_are_digits(i);
    }
}

/// Formatter marker law: the text of a lost outcome always ends with
/// `" LOST"`, and the text of a non-lost outcome never contains the
/// substring `"LOST"` anywhere.
pub proof fn lemma_format_lost_marker(o: Outcome)
    ensures
        o.is_lost ==> outcome_text(o).len() >= 5 && outcome_text(o).skip(
            outcome_text(o).len() - 5,
        ) =~= lost_marker(),
        !o.is_lost ==> forall|k: int|
            0 <= k <= outcome_text(o).len() - 4 ==> #[trigger] outcome_text(o).subrange(k, k + 4)
                != seq!['L', 'O', 'S', 'T'],
{
    lemma_int_text_chars(o.x as int);
    lemma_int_text_chars(o.y as int);
    if o.is_lost {
        assert(outcome_text(o).skip(outcome_text(o).len() - 5) =~= lost_marker());
    } else {
        let t = outcome_text(o);
        assert forall|k: int| 0 <= k < t.len() implies t[k] != 'L' by {
            assert(t == base_text(o));
        }
        assert forall|k: int| 0 <= k <= t.len() - 4 implies #[trigger] t.subrange(k, k + 4)
            != seq!['L', 'O', 'S', 'T'] by {
            if t.subrange(k, k + 4) == seq!['L', 'O', 'S', 'T'] {
                assert(t[k] == t.subrange(k, k + 4)[0]);
            }
        }
    }
}

} // verus!
