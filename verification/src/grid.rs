//! The grid model: the two inclusive bounding coordinates, parsed
//! from a line of the form `"<max_x> <max_y>"`.

use vstd::prelude::*;

use crate::errors::ParseError;
use crate::text::{
    chars_of, fits_i32, int_token_val, is_int_token, nonws_run_end, parse_int_token_i32,
    scan_nonws, scan_ws, ws_run_end,
};

verus! {

/// The inclusive upper bounds of the grid: positions `(x, y)` with
/// `0 <= x <= max_x` and `0 <= y <= max_y` are on the grid. The values
/// come from trusted input and are not range-checked; negative bounds
/// simply make every forward move lost.
#[derive(Debug, PartialEq, Eq, Structural)]
pub struct Grid {
    pub max_x: i32,
    pub max_y: i32,
}

/// Where the first whitespace-separated token of `s` starts.
pub open spec fn tok1_start(s: Seq<char>) -> int {
    ws_run_end(s, 0)
}

/// Where the first token of `s` ends.
pub open spec fn tok1_end(s: Seq<char>) -> int {
    nonws_run_end(s, tok1_start(s))
}

/// Where the second token of `s` starts.
pub open spec fn tok2_start(s: Seq<char>) -> int {
    ws_run_end(s, tok1_end(s))
}

/// Where the second token of `s` ends.
pub open spec fn tok2_end(s: Seq<char>) -> int {
    nonws_run_end(s, tok2_start(s))
}

/// The first whitespace-separated token of `s`.
pub open spec fn grid_tok1(s: Seq<char>) -> Seq<char> {
    s.subrange(tok1_start(s), tok1_end(s))
}

/// The second whitespace-separated token of `s`.
pub open spec fn grid_tok2(s: Seq<char>) -> Seq<char> {
    s.subrange(tok2_start(s), tok2_end(s))
}

/// Whether `s` consists of exactly two whitespace-separated tokens.
pub open spec fn grid_line_shape(s: Seq<char>) -> bool {
    &&& tok1_end(s) > tok1_start(s)
    &&& tok2_end(s) > tok2_start(s)
    &&& ws_run_end(s, tok2_end(s)) == s.len()
}

/// Whether `s` is a well-formed grid line: exactly two
/// whitespace-separated tokens, each a decimal integer that fits the
/// coordinate type.
pub open spec fn grid_ok(s: Seq<char>) -> bool {
    &&& grid_line_shape(s)
    &&& is_int_token(grid_tok1(s))
    &&& fits_i32(int_token_val(grid_tok1(s)))
    &&& is_int_token(grid_tok2(s))
    &&& fits_i32(int_token_val(grid_tok2(s)))
}

/// The x bound a well-formed grid line denotes.
pub open spec fn grid_x_val(s: Seq<char>) -> int {
    int_token_val(grid_tok1(s))
}

/// The y bound a well-formed grid line denotes.
pub open spec fn grid_y_val(s: Seq<char>) -> int {
    int_token_val(grid_tok2(s))
}

impl Grid {
    /// Reads a grid line. Succeeds exactly on lines that split into
    /// two whitespace-separated decimal integer tokens whose values
    /// fit the coordinate type; every other line is `MalformedGrid`.
    pub fn parse(input: String) -> (r: Result<Grid, ParseError>)
        ensures
            match r {
                Ok(g) => {
                    &&& grid_ok(input@)
                    &&& g.max_x as int == grid_x_val(input@)
                    &&& g.max_y as int == grid_y_val(input@)
                },
                Err(e) => e == ParseError::MalformedGrid && !grid_ok(input@),
            },
    {
        let v = chars_of(input.as_str());
        let t1s = scan_ws(&v, 0);
        let t1e = scan_nonws(&v, t1s);
        if t1e == t1s {
            return Err(ParseError::MalformedGrid);
        }
        let t2s = scan_ws(&v, t1e);
        let t2e = scan_nonws(&v, t2s);
        if t2e == t2s {
            return Err(ParseError::MalformedGrid);
        }
        let tail = scan_ws(&v, t2e);
        if tail != v.len() {
            return Err(ParseError::MalformedGrid);
        }
        let x = match parse_int_token_i32(&v, t1s, t1e) {
            Some(x) => x,
            None => {
                return Err(ParseError::MalformedGrid);
            },
        };
        let y = match parse_int_token_i32(&v, t2s, t2e) {
            Some(y) => y,
            None => {
                return Err(ParseError::MalformedGrid);
            },
        };
        Ok(Grid { max_x: x, max_y: y })
    }
}

} // verus!
