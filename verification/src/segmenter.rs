//! Splits a template into its literal text and the expressions of its markers.

use vstd::prelude::*;
use vstd::std_specs::iter::IteratorSpec;
use vstd::string::*;
use crate::boundary::{expr_end, find_expr_end, find_expr_start, marker_start, Unterminated};
use crate::error::ScanError;
use crate::literals::NUL;
use crate::modifier::{compiled, find_end, match_end, modifier_regex, MODIFIER_PATTERN};

verus! {

/// The region of the expression of the marker whose content starts at
/// `marker`, given where its modifier tag ends (counted from `marker`): from
/// the end of the tag to the closing brace.
pub open spec fn region_from(text: Seq<char>, marker: int, modifier: Option<nat>) -> Result<
    (int, int),
    ScanError,
> {
    let start = marker + (match modifier {
        Some(n) => n as int,
        None => 0,
    });
    match expr_end(text, start, NUL, 0) {
        Ok(e) => Ok((start, e)),
        Err(Unterminated::Marker) => Err(ScanError::UnterminatedMarker { start: marker as usize }),
        Err(Unterminated::Literal) => Err(
            ScanError::UnterminatedLiteral { start: marker as usize },
        ),
    }
}

/// The region of the next expression at or after `cursor`, `None` where no
/// marker is left.
pub open spec fn next_region(text: Seq<char>, cursor: int, re: regex::Regex) -> Result<
    Option<(int, int)>,
    ScanError,
> {
    match marker_start(text, cursor, false) {
        None => Ok(None),
        Some(m) => match region_from(
            text,
            m,
            match_end(re, text.subrange(m, text.len() as int)),
        ) {
            Ok(region) => Ok(Some(region)),
            Err(e) => Err(e),
        },
    }
}

/// The text from `cursor` on, split into the literal text, in which every
/// marker has lost its expression, and the expressions in their order.
///
/// A region always lies ahead of the cursor (`law_region_lies_ahead`), so the
/// last branch is never taken; it is there for the recursion to end.
pub open spec fn split(text: Seq<char>, cursor: int, re: regex::Regex) -> Result<
    (Seq<char>, Seq<Seq<char>>),
    ScanError,
>
    decreases text.len() - cursor,
{
    match next_region(text, cursor, re) {
        Err(e) => Err(e),
        Ok(None) => Ok((text.subrange(cursor, text.len() as int), Seq::empty())),
        Ok(Some((start, end))) => if cursor < start <= end <= text.len() {
            prepend(
                text.subrange(cursor, start),
                seq![text.subrange(start, end)],
                split(text, end, re),
            )
        } else {
            Ok((text.subrange(cursor, text.len() as int), Seq::empty()))
        },
    }
}

/// Puts `literal` and `expressions` before those of `rest`.
pub open spec fn prepend(
    literal: Seq<char>,
    expressions: Seq<Seq<char>>,
    rest: Result<(Seq<char>, Seq<Seq<char>>), ScanError>,
) -> Result<(Seq<char>, Seq<Seq<char>>), ScanError> {
    match rest {
        Ok((l, x)) => Ok((literal + l, expressions + x)),
        Err(e) => Err(e),
    }
}

/// The expressions as trailing arguments: each one after a comma.
pub open spec fn arguments(expressions: Seq<Seq<char>>) -> Seq<char>
    decreases expressions.len(),
{
    if expressions.len() == 0 {
        Seq::empty()
    } else {
        arguments(expressions.drop_last()) + seq![','] + expressions.last()
    }
}

/// The call of the macro `func` with the literal text and the expressions.
pub open spec fn call_text(func: Seq<char>, literal: Seq<char>, expressions: Seq<Seq<char>>) -> Seq<
    char,
> {
    func + seq!['!', '('] + literal + arguments(expressions) + seq![')']
}

/// What `ex_impl` returns for `func` and the template `text`, given the regex
/// of the modifier tag.
pub open spec fn ex_output(func: Seq<char>, text: Seq<char>, re: Option<regex::Regex>) -> Result<
    Seq<char>,
    ScanError,
> {
    match re {
        None => Err(ScanError::InvalidPattern),
        Some(re) => match split(text, 0, re) {
            Ok((literal, expressions)) => Ok(call_text(func, literal, expressions)),
            Err(e) => Err(e),
        },
    }
}

/// A region of an exec result over mathematical integers.
pub open spec fn region(r: Result<(usize, usize), ScanError>) -> Result<(int, int), ScanError> {
    match r {
        Ok((s, e)) => Ok((s as int, e as int)),
        Err(e) => Err(e),
    }
}

/// An optional region of an exec result over mathematical integers.
pub open spec fn optional_region(r: Result<Option<(usize, usize)>, ScanError>) -> Result<
    Option<(int, int)>,
    ScanError,
> {
    match r {
        Ok(Some((s, e))) => Ok(Some((s as int, e as int))),
        Ok(None) => Ok(None),
        Err(e) => Err(e),
    }
}

/// The length of a modifier tag as a natural number.
pub open spec fn tag_length(modifier: Option<usize>) -> Option<nat> {
    match modifier {
        Some(n) => Some(n as nat),
        None => None,
    }
}

/// Finds the expression of the marker whose content starts at `marker` and
/// whose modifier tag, if it has one, is `modifier` codepoints long.
pub fn region_after_modifier(text: &[char], marker: usize, modifier: Option<usize>) -> (r: Result<
    (usize, usize),
    ScanError,
>)
    requires
        marker <= text@.len(),
        modifier matches Some(n) ==> marker + n <= text@.len(),
    ensures
        region(r) == region_from(text@, marker as int, tag_length(modifier)),
        r matches Ok((s, e)) ==> marker <= s <= e < text@.len() && text@[e as int] == '}',
{
    let start = match modifier {
        Some(n) => {
            let len = text.len();
            assert(marker + n <= len);
            marker + n
        },
        None => marker,
    };
    match find_expr_end(text, start) {
        Ok(end) => Ok((start, end)),
        Err(Unterminated::Marker) => Err(ScanError::UnterminatedMarker { start: marker }),
        Err(Unterminated::Literal) => Err(ScanError::UnterminatedLiteral { start: marker }),
    }
}

/// Finds the next marker at or after `start_index` and returns the region of
/// its expression: from the end of its modifier tag to its closing brace.
pub fn range_in_brackets(text: &[char], start_index: usize, specs: &regex::Regex) -> (r: Result<
    Option<(usize, usize)>,
    ScanError,
>)
    requires
        start_index <= text@.len(),
    ensures
        optional_region(r) == next_region(text@, start_index as int, *specs),
        r matches Ok(Some((s, e))) ==> start_index < s <= e < text@.len() && text@[e as int]
            == '}',
{
    match find_expr_start(text, start_index) {
        None => Ok(None),
        Some(marker) => {
            let modifier = find_end(specs, text, marker);
            match region_after_modifier(text, marker, modifier) {
                Ok(found) => Ok(Some(found)),
                Err(e) => Err(e),
            }
        },
    }
}

/// The codepoints of `s`.
pub fn to_chars(s: &str) -> (r: Vec<char>)
    ensures
        r@ == s@,
{
    broadcast use {vstd::string::axiom_spec_iter, vstd::string::next_postcondition};

    let mut v: Vec<char> = Vec::new();
    let mut it = s.chars();
    assert(v@ + it.remaining() =~= s@);
    loop
        invariant
            it.obeys_prophetic_iter_laws(),
            it.decrease() is Some,
            v@ + it.remaining() == s@,
        ensures
            v@ == s@,
        decreases it.decrease()->0,
    {
        let ghost before = it.remaining();
        match it.next() {
            Some(c) => {
                v.push(c);
                assert(v@ + it.remaining() =~= s@);
            },
            None => {
                assert(before.len() == 0);
                assert(v@ + before =~= v@);
                break ;
            },
        }
    }
    v
}

/// The two strings of an exec result as sequences of codepoints.
pub open spec fn halves(r: Result<(String, String), ScanError>) -> Result<
    (Seq<char>, Seq<char>),
    ScanError,
> {
    match r {
        Ok((literal, trailing)) => Ok((literal@, trailing@)),
        Err(e) => Err(e),
    }
}

/// What `split_template` returns for the template `text`: its literal text,
/// and its expressions as trailing arguments.
pub open spec fn template_halves(text: Seq<char>, re: regex::Regex) -> Result<
    (Seq<char>, Seq<char>),
    ScanError,
> {
    match split(text, 0, re) {
        Ok((literal, expressions)) => Ok((literal, arguments(expressions))),
        Err(e) => Err(e),
    }
}

/// Splits the template `arg` into its literal text, in which every marker
/// keeps its braces and its modifier tag and loses its expression, and the
/// expressions in their order, each after a comma. Fails, with nothing
/// split, where a marker or a literal inside one is not closed.
pub fn split_template(arg: &str, specs: &regex::Regex) -> (r: Result<(String, String), ScanError>)
    ensures
        halves(r) == template_halves(arg@, *specs),
{
    let text = to_chars(arg);
    let len = text.len();
    let mut ex_fmt = String::new();
    let mut ex_args = String::new();
    let ghost mut done: Seq<Seq<char>> = Seq::empty();
    let mut search_index: usize = 0;
    assert(ex_fmt@ + arg@ =~= arg@);
    loop
        invariant
            text@ == arg@,
            len == text@.len(),
            search_index <= len,
            split(text@, 0, *specs) == prepend(
                ex_fmt@,
                done,
                split(text@, search_index as int, *specs),
            ),
            ex_args@ == arguments(done),
        ensures
            split(text@, 0, *specs) == Ok::<(Seq<char>, Seq<Seq<char>>), ScanError>(
                (ex_fmt@ + text@.subrange(search_index as int, len as int), done),
            ),
        decreases len - search_index,
    {
        match range_in_brackets(text.as_slice(), search_index, specs) {
            Err(e) => {
                return Err(e);
            },
            Ok(None) => {
                assert(done + Seq::<Seq<char>>::empty() =~= done);
                break ;
            },
            Ok(Some((start, end))) => {
                let ghost rest = split(text@, end as int, *specs);
                let ghost before = ex_fmt@;
                ex_fmt.append(arg.substring_char(search_index, start));
                ex_args.append(",");
                ex_args.append(arg.substring_char(start, end));
                proof {
                    reveal_strlit(",");
                    let piece = text@.subrange(search_index as int, start as int);
                    let expr = text@.subrange(start as int, end as int);
                    assert(","@ =~= seq![',']);
                    assert(done.push(expr).drop_last() =~= done);
                    match rest {
                        Ok((l, x)) => {
                            assert(before + (piece + l) =~= (before + piece) + l);
                            assert(done + (seq![expr] + x) =~= done.push(expr) + x);
                        },
                        Err(_) => {},
                    }
                    done = done.push(expr);
                }
                search_index = end;
            },
        }
    }
    ex_fmt.append(arg.substring_char(search_index, len));
    Ok((ex_fmt, ex_args))
}

/// Rewrites the argument of a macro of this family into a call of the macro
/// `func` of the standard library: the template `arg` with its expressions
/// taken out, and the expressions after it as arguments.
pub fn ex_impl(func: &str, arg: &str) -> (r: Result<String, ScanError>)
    ensures
        match r {
            Ok(s) => ex_output(func@, arg@, compiled(MODIFIER_PATTERN@)) == Ok::<
                Seq<char>,
                ScanError,
            >(s@),
            Err(e) => ex_output(func@, arg@, compiled(MODIFIER_PATTERN@)) == Err::<
                Seq<char>,
                ScanError,
            >(e),
        },
{
    let specs = match modifier_regex() {
        Ok(re) => re,
        Err(e) => {
            return Err(e);
        },
    };
    match split_template(arg, &specs) {
        Ok((ex_fmt, ex_args)) => {
            let mut out = String::from_str(func);
            out.append("!(");
            out.append(ex_fmt.as_str());
            out.append(ex_args.as_str());
            out.append(")");
            proof {
                reveal_strlit("!(");
                reveal_strlit(")");
                assert("!("@ =~= seq!['!', '(']);
                assert(")"@ =~= seq![')']);
            }
            Ok(out)
        },
        Err(e) => Err(e),
    }
}

} // verus!
