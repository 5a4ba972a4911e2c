//! Finds where a marker's expression starts and where it ends.

use vstd::prelude::*;
use crate::literals::{
    block_comment_step, char_end, do_string, line_comment_step, position, quote_end,
    raw_string_step, try_block_comment, try_char, try_line_comment, try_raw_string, NUL,
};

verus! {

/// What the text ended in before a marker was closed.
#[derive(Clone, Copy, Debug, PartialEq, Eq, Structural)]
pub enum Unterminated {
    /// The braces of the marker are not balanced.
    Marker,
    /// A string, a character literal, a raw string or a block comment inside
    /// the marker is not closed.
    Literal,
}

/// The first position at or after `i` at which a marker's content starts: the
/// position after a `{` that holds no `{`. `after_brace` says that the
/// codepoint before `i` is a `{` that is not the second of an escaped pair;
/// `{{` is such a pair and starts no marker.
pub open spec fn marker_start(text: Seq<char>, i: int, after_brace: bool) -> Option<int>
    decreases text.len() - i,
{
    if i < 0 || i >= text.len() {
        None
    } else if after_brace {
        if text[i] != '{' {
            Some(i)
        } else {
            marker_start(text, i + 1, false)
        }
    } else {
        marker_start(text, i + 1, text[i] == '{')
    }
}

/// Finds the next marker at or after `from` and returns the position after
/// its opening brace. `None` where no marker is left.
pub fn find_expr_start(text: &[char], from: usize) -> (r: Option<usize>)
    requires
        from <= text@.len(),
    ensures
        position(r) == marker_start(text@, from as int, false),
        r matches Some(m) ==> from < m < text@.len() && text@[m - 1] == '{' && text@[m as int]
            != '{',
{
    let mut i: usize = from;
    let mut after_brace = false;
    while i < text.len()
        invariant
            from <= i <= text@.len(),
            marker_start(text@, from as int, false) == marker_start(text@, i as int, after_brace),
            after_brace ==> from < i && text@[i - 1] == '{',
        decreases text@.len() - i,
    {
        let c = text[i];
        if after_brace {
            if c != '{' {
                return Some(i);
            }
            after_brace = false;
        } else {
            after_brace = c == '{';
        }
        i += 1;
    }
    None
}

/// Where scanning resumes, and with which previous codepoint, after the
/// codepoint `c` that stands just before `pos` and is no brace. `None` where
/// `c` opens a region that the text does not close.
pub open spec fn step_over(text: Seq<char>, pos: int, c: char, prev: char) -> Option<(int, char)> {
    if c == 'r' {
        raw_string_step(text, pos, prev)
    } else if c == '"' {
        match quote_end(text, '"', pos, pos) {
            Some(e) => Some((e, NUL)),
            None => None,
        }
    } else if c == '/' {
        Some(line_comment_step(text, pos, prev))
    } else if c == '*' {
        block_comment_step(text, pos, prev)
    } else if c == '\'' {
        match char_end(text, pos) {
            Some(e) => Some((e, NUL)),
            None => None,
        }
    } else {
        Some((pos, c))
    }
}

/// The position of the `}` that closes a marker, scanning from `i` with
/// `nested` braces open inside the marker and `prev` the previous codepoint.
/// Braces inside strings, character literals, raw strings and comments do
/// not count.
///
/// A step never goes back or leaves the text (`law_step_moves_forward`), so
/// the test on `p` never fails; it is there for the recursion to end.
pub open spec fn expr_end(text: Seq<char>, i: int, prev: char, nested: nat) -> Result<
    int,
    Unterminated,
>
    decreases text.len() - i,
{
    if i < 0 || i >= text.len() {
        Err(Unterminated::Marker)
    } else if text[i] == '{' {
        expr_end(text, i + 1, NUL, nested + 1)
    } else if text[i] == '}' {
        if nested == 0 {
            Ok(i)
        } else {
            expr_end(text, i + 1, NUL, (nested - 1) as nat)
        }
    } else {
        match step_over(text, i + 1, text[i], prev) {
            Some((p, q)) => if i < p <= text.len() {
                expr_end(text, p, q, nested)
            } else {
                Err(Unterminated::Literal)
            },
            None => Err(Unterminated::Literal),
        }
    }
}

/// The position of an exec result as a mathematical integer.
pub open spec fn boundary(r: Result<usize, Unterminated>) -> Result<int, Unterminated> {
    match r {
        Ok(e) => Ok(e as int),
        Err(u) => Err(u),
    }
}

/// Finds the `}` that closes the marker whose expression starts at `start`.
pub fn find_expr_end(text: &[char], start: usize) -> (r: Result<usize, Unterminated>)
    requires
        start <= text@.len(),
    ensures
        boundary(r) == expr_end(text@, start as int, NUL, 0),
        r matches Ok(e) ==> start <= e < text@.len() && text@[e as int] == '}',
{
    let mut i: usize = start;
    let mut prev_c: char = NUL;
    let mut nested: usize = 0;
    while i < text.len()
        invariant
            start <= i <= text@.len(),
            nested <= i - start,
            expr_end(text@, start as int, NUL, 0) == expr_end(
                text@,
                i as int,
                prev_c,
                nested as nat,
            ),
        decreases text@.len() - i,
    {
        let c = text[i];
        if c == '{' {
            nested += 1;
            prev_c = NUL;
            i += 1;
        } else if c == '}' {
            if nested == 0 {
                return Ok(i);
            }
            nested -= 1;
            prev_c = NUL;
            i += 1;
        } else {
            let step = if c == 'r' {
                try_raw_string(text, i + 1, prev_c)
            } else if c == '"' {
                match do_string(text, i + 1) {
                    Some(e) => Some((e, NUL)),
                    None => None,
                }
            } else if c == '/' {
                Some(try_line_comment(text, i + 1, prev_c))
            } else if c == '*' {
                try_block_comment(text, i + 1, prev_c)
            } else if c == '\'' {
                match try_char(text, i + 1) {
                    Some(e) => Some((e, NUL)),
                    None => None,
                }
            } else {
                Some((i + 1, c))
            };
            match step {
                Some((p, q)) => {
                    i = p;
                    prev_c = q;
                },
                None => {
                    return Err(Unterminated::Literal);
                },
            }
        }
    }
    Err(Unterminated::Marker)
}

} // verus!
