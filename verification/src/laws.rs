//! What holds of every template: proved, not tested.

use vstd::prelude::*;
use crate::boundary::{expr_end, marker_start, step_over, Unterminated};
use crate::error::ScanError;
use crate::literals::{
    block_comment_end, hash_run_end, ident_run_end, line_end, quote_end,
    raw_string_end, NUL,
};
use crate::modifier::match_end;
use crate::segmenter::{arguments, call_text, ex_output, next_region, split};

verus! {

/// A marker's content starts after a single `{`, at a codepoint that is no
/// `{`, and not before the position at which the search began.
pub proof fn law_marker_follows_brace(text: Seq<char>, i: int, after_brace: bool)
    requires
        0 <= i,
        after_brace ==> i > 0 && text[i - 1] == '{',
    ensures
        marker_start(text, i, after_brace) matches Some(m) ==> i <= m < text.len() && m > 0
            && text[m - 1] == '{' && text[m] != '{' && (!after_brace ==> i < m),
    decreases text.len() - i,
{
    if i < text.len() {
        if after_brace {
            if text[i] == '{' {
                law_marker_follows_brace(text, i + 1, false);
            }
        } else {
            law_marker_follows_brace(text, i + 1, text[i] == '{');
        }
    }
}

/// A text without `{` holds no marker.
pub proof fn law_no_brace_no_marker(text: Seq<char>, i: int)
    requires
        0 <= i,
        forall|k: int| i <= k < text.len() ==> text[k] != '{',
    ensures
        marker_start(text, i, false) is None,
    decreases text.len() - i,
{
    if i < text.len() {
        law_no_brace_no_marker(text, i + 1);
    }
}

/// A closing quote that is found lies inside the text, at or after the
/// position at which the search began.
pub proof fn law_quote_end_in_text(text: Seq<char>, quote: char, first: int, i: int)
    requires
        0 <= i,
    ensures
        quote_end(text, quote, first, i) matches Some(e) ==> i < e <= text.len(),
    decreases text.len() - i,
{
    if i < text.len() {
        law_quote_end_in_text(text, quote, first, i + 1);
    }
}

/// A run of `#` ends inside the text or at its end.
pub proof fn law_hash_run_in_text(text: Seq<char>, i: int)
    requires
        0 <= i <= text.len(),
    ensures
        i <= hash_run_end(text, i) <= text.len(),
    decreases text.len() - i,
{
    if i < text.len() {
        law_hash_run_in_text(text, i + 1);
    }
}

/// A run of identifier codepoints ends inside the text or at its end.
pub proof fn law_ident_run_in_text(text: Seq<char>, i: int)
    requires
        0 <= i <= text.len(),
    ensures
        i <= ident_run_end(text, i) <= text.len(),
    decreases text.len() - i,
{
    if i < text.len() {
        law_ident_run_in_text(text, i + 1);
    }
}

/// The delimiter that closes a raw string lies inside the text.
pub proof fn law_raw_string_end_in_text(text: Seq<char>, hashes: nat, i: int)
    requires
        0 <= i,
    ensures
        raw_string_end(text, hashes, i) matches Some(e) ==> i + hashes < e <= text.len(),
    decreases text.len() - i,
{
    if i < text.len() {
        law_hash_run_in_text(text, i + 1);
        law_raw_string_end_in_text(text, hashes, i + 1);
    }
}

/// A line comment ends inside the text or at its end.
pub proof fn law_line_end_in_text(text: Seq<char>, i: int)
    requires
        0 <= i <= text.len(),
    ensures
        i <= line_end(text, i) <= text.len(),
    decreases text.len() - i,
{
    if i < text.len() {
        law_line_end_in_text(text, i + 1);
    }
}

/// The end of a block comment lies inside the text.
pub proof fn law_block_comment_end_in_text(text: Seq<char>, i: int, prev: char, open: nat)
    requires
        0 <= i,
    ensures
        block_comment_end(text, i, prev, open) matches Some(e) ==> i < e <= text.len(),
    decreases text.len() - i,
{
    if i < text.len() {
        law_block_comment_end_in_text(text, i + 1, NUL, open + 1);
        law_block_comment_end_in_text(text, i + 1, NUL, (open - 1) as nat);
        law_block_comment_end_in_text(text, i + 1, text[i], open);
    }
}

/// Whatever a codepoint opens, the scan resumes behind it and inside the
/// text: no step goes back, and none leaves the text.
pub proof fn law_step_moves_forward(text: Seq<char>, pos: int, c: char, prev: char)
    requires
        0 <= pos <= text.len(),
    ensures
        step_over(text, pos, c, prev) matches Some((p, _)) ==> pos <= p <= text.len(),
{
    law_hash_run_in_text(text, pos);
    let h = hash_run_end(text, pos);
    law_raw_string_end_in_text(text, (h - pos) as nat, h + 1);
    law_quote_end_in_text(text, '"', pos, pos);
    law_line_end_in_text(text, pos);
    law_block_comment_end_in_text(text, pos, NUL, 1);
    if pos < text.len() {
        law_ident_run_in_text(text, pos + 1);
        law_quote_end_in_text(text, '\'', pos, pos + 1);
    }
}

/// The scan for the end of an expression reports an open literal only where
/// a string, a character literal, a raw string or a block comment was opened
/// and the text ends inside it.
pub proof fn law_literal_error_means_open_literal(
    text: Seq<char>,
    i: int,
    prev: char,
    nested: nat,
)
    requires
        0 <= i < text.len(),
        text[i] != '{',
        text[i] != '}',
    ensures
        expr_end(text, i, prev, nested) == match step_over(text, i + 1, text[i], prev) {
            Some((p, q)) => expr_end(text, p, q, nested),
            None => Err(Unterminated::Literal),
        },
{
    law_step_moves_forward(text, i + 1, text[i], prev);
}

/// The end of an expression is a `}` at or after the position at which the
/// scan began.
pub proof fn law_expression_ends_at_brace(text: Seq<char>, i: int, prev: char, nested: nat)
    requires
        0 <= i,
    ensures
        expr_end(text, i, prev, nested) matches Ok(e) ==> i <= e < text.len() && text[e] == '}',
    decreases text.len() - i,
{
    if i < text.len() {
        if text[i] == '{' {
            law_expression_ends_at_brace(text, i + 1, NUL, nested + 1);
        } else if text[i] == '}' {
            if nested > 0 {
                law_expression_ends_at_brace(
                    text,
                    i + 1,
                    NUL,
                    (nested - 1) as nat,
                );
            }
        } else {
            match step_over(text, i + 1, text[i], prev) {
                Some((p, q)) => {
                    if i < p <= text.len() {
                        law_expression_ends_at_brace(text, p, q, nested);
                    }
                },
                None => {},
            }
        }
    }
}

/// From `i` on the text holds no quote, apostrophe, slash or star: nothing
/// that opens a string, a character literal or a comment.
pub open spec fn plain_from(text: Seq<char>, i: int) -> bool {
    forall|k: int|
        i <= k < text.len() ==> text[k] != '"' && text[k] != '\'' && text[k] != '/' && text[k]
            != '*'
}

/// The position of the first `}` at or after `i` that has no `{` of its own
/// among the `nested` open ones and those opened from `i` on.
pub open spec fn matching_brace(text: Seq<char>, i: int, nested: nat) -> Option<int>
    decreases text.len() - i,
{
    if i < 0 || i >= text.len() {
        None
    } else if text[i] == '{' {
        matching_brace(text, i + 1, nested + 1)
    } else if text[i] == '}' {
        if nested == 0 {
            Some(i)
        } else {
            matching_brace(text, i + 1, (nested - 1) as nat)
        }
    } else {
        matching_brace(text, i + 1, nested)
    }
}

/// In an expression without strings, character literals and comments the
/// marker ends at the brace that matches its opening brace, and the scan
/// fails only where there is none.
pub proof fn law_plain_expression_ends_at_matching_brace(
    text: Seq<char>,
    i: int,
    prev: char,
    nested: nat,
)
    requires
        0 <= i,
        plain_from(text, i),
    ensures
        expr_end(text, i, prev, nested) == match matching_brace(text, i, nested) {
            Some(e) => Ok::<int, Unterminated>(e),
            None => Err(Unterminated::Marker),
        },
    decreases text.len() - i,
{
    if i < text.len() {
        if text[i] == '{' {
            law_plain_expression_ends_at_matching_brace(text, i + 1, NUL, nested + 1);
        } else if text[i] == '}' {
            if nested > 0 {
                law_plain_expression_ends_at_matching_brace(
                    text,
                    i + 1,
                    NUL,
                    (nested - 1) as nat,
                );
            }
        } else {
            law_hash_run_in_text(text, i + 1);
            let q = if text[i] == 'r' {
                'r'
            } else {
                text[i]
            };
            assert(step_over(text, i + 1, text[i], prev) == Some((i + 1, q)));
            law_plain_expression_ends_at_matching_brace(text, i + 1, q, nested);
        }
    }
}

/// The region of an expression lies after the cursor and inside the text,
/// and ends at a `}`: whatever the regex finds, the scan moves forward.
pub proof fn law_region_lies_ahead(text: Seq<char>, cursor: int, re: regex::Regex)
    requires
        0 <= cursor,
    ensures
        next_region(text, cursor, re) matches Ok(Some((start, end))) ==> cursor < start <= end
            < text.len() && text[end] == '}',
{
    law_marker_follows_brace(text, cursor, false);
    match marker_start(text, cursor, false) {
        Some(m) => {
            let n: int = match match_end(
                re,
                text.subrange(m, text.len() as int),
            ) {
                Some(n) => n as int,
                None => 0,
            };
            law_expression_ends_at_brace(text, m + n, NUL, 0);
        },
        None => {},
    }
}

/// The regions of the expressions from `cursor` on, in their order.
pub open spec fn regions(text: Seq<char>, cursor: int, re: regex::Regex) -> Result<
    Seq<(int, int)>,
    ScanError,
>
    decreases text.len() - cursor,
{
    match next_region(text, cursor, re) {
        Err(e) => Err(e),
        Ok(None) => Ok(Seq::empty()),
        Ok(Some((start, end))) => if cursor < start <= end <= text.len() {
            match regions(text, end, re) {
                Ok(rest) => Ok(seq![(start, end)] + rest),
                Err(e) => Err(e),
            }
        } else {
            Ok(Seq::empty())
        },
    }
}

/// The regions of a template come in the order of the text and do not
/// overlap: each lies behind the closing brace of the one before, inside the
/// text, and ends at a `}`.
pub proof fn law_regions_in_order(text: Seq<char>, cursor: int, re: regex::Regex)
    requires
        0 <= cursor,
    ensures
        regions(text, cursor, re) matches Ok(found) ==> {
            &&& forall|k: int|
                0 <= k < found.len() ==> cursor < (#[trigger] found[k]).0 <= found[k].1
                    < text.len() && text[found[k].1] == '}'
            &&& forall|j: int, k: int|
                0 <= j < k < found.len() ==> (#[trigger] found[j]).1 < (#[trigger] found[k]).0
        },
    decreases text.len() - cursor,
{
    law_region_lies_ahead(text, cursor, re);
    match next_region(text, cursor, re) {
        Ok(Some((start, end))) => {
            law_regions_in_order(text, end, re);
            match regions(text, end, re) {
                Ok(rest) => {
                    let found = seq![(start, end)] + rest;
                    assert forall|k: int| 0 <= k < found.len() implies cursor
                        < (#[trigger] found[k]).0 <= found[k].1 < text.len()
                        && text[found[k].1] == '}' by {
                        if k > 0 {
                            assert(found[k] == rest[k - 1]);
                        }
                    }
                    assert forall|j: int, k: int| 0 <= j < k < found.len() implies
                        (#[trigger] found[j]).1 < (#[trigger] found[k]).0 by {
                        assert(found[k] == rest[k - 1]);
                        if j > 0 {
                            assert(found[j] == rest[j - 1]);
                        }
                    }
                },
                Err(_) => {},
            }
        },
        _ => {},
    }
}

/// The number of codepoints of all the expressions together.
pub open spec fn total_length(expressions: Seq<Seq<char>>) -> nat
    decreases expressions.len(),
{
    if expressions.len() == 0 {
        0
    } else {
        total_length(expressions.drop_last()) + expressions.last().len()
    }
}

/// A template is split into as many expressions as it has markers, each
/// the text of its region, in the order of the markers; and it fails exactly
/// where finding the markers fails, with the same error.
pub proof fn law_one_expression_per_marker(text: Seq<char>, cursor: int, re: regex::Regex)
    requires
        0 <= cursor,
    ensures
        match regions(text, cursor, re) {
            Ok(found) => split(text, cursor, re) matches Ok((_, expressions))
                && expressions.len() == found.len() && forall|k: int|
                0 <= k < found.len() ==> #[trigger] expressions[k] == text.subrange(
                    found[k].0,
                    found[k].1,
                ),
            Err(e) => split(text, cursor, re) == Err::<(Seq<char>, Seq<Seq<char>>), _>(e),
        },
    decreases text.len() - cursor,
{
    match next_region(text, cursor, re) {
        Ok(Some((start, end))) => {
            if cursor < start <= end <= text.len() {
                law_one_expression_per_marker(text, end, re);
            }
        },
        _ => {},
    }
}

/// The call that a template with `k` markers is rewritten to holds the
/// literal text as its first argument and `k` expressions after it.
pub proof fn law_one_argument_per_marker(func: Seq<char>, text: Seq<char>, re: regex::Regex)
    requires
        regions(text, 0, re) is Ok,
    ensures
        split(text, 0, re) matches Ok((literal, expressions)) && expressions.len() == regions(
            text,
            0,
            re,
        ).unwrap().len() && ex_output(func, text, Some(re)) == Ok::<_, ScanError>(
            func + seq!['!', '('] + literal + arguments(expressions) + seq![')'],
        ),
{
    law_one_expression_per_marker(text, 0, re);
}

/// The trailing arguments of two lists of expressions, one after the other,
/// are those of the first followed by those of the second.
pub proof fn law_arguments_concatenate(first: Seq<Seq<char>>, second: Seq<Seq<char>>)
    ensures
        arguments(first + second) == arguments(first) + arguments(second),
    decreases second.len(),
{
    if second.len() == 0 {
        assert(first + second =~= first);
        assert(arguments(first) + arguments(second) =~= arguments(first));
    } else {
        law_arguments_concatenate(first, second.drop_last());
        assert((first + second).drop_last() =~= first + second.drop_last());
        assert((first + second).last() == second.last());
        assert(arguments(first + second) =~= arguments(first) + arguments(second));
    }
}

/// The trailing arguments hold one comma for each expression, and beside the
/// commas the codepoints of the expressions.
pub proof fn law_one_comma_per_expression(expressions: Seq<Seq<char>>)
    ensures
        arguments(expressions).len() == expressions.len() + total_length(expressions),
    decreases expressions.len(),
{
    if expressions.len() > 0 {
        law_one_comma_per_expression(expressions.drop_last());
    }
}

/// Splitting loses nothing: where the text from `cursor` on is split, the
/// literal text and the expressions together are as long as that text.
pub proof fn law_split_keeps_every_codepoint(text: Seq<char>, cursor: int, re: regex::Regex)
    requires
        0 <= cursor <= text.len(),
    ensures
        split(text, cursor, re) matches Ok((literal, expressions)) ==> literal.len()
            + total_length(expressions) == text.len() - cursor,
    decreases text.len() - cursor,
{
    match next_region(text, cursor, re) {
        Ok(Some((start, end))) => {
            if cursor < start <= end <= text.len() {
                law_split_keeps_every_codepoint(text, end, re);
                match split(text, end, re) {
                    Ok((l, x)) => {
                        let e = text.subrange(start, end);
                        lemma_total_length_cons(e, x);
                    },
                    Err(_) => {},
                }
            }
        },
        _ => {},
    }
}

proof fn lemma_total_length_cons(head: Seq<char>, tail: Seq<Seq<char>>)
    ensures
        total_length(seq![head] + tail) == head.len() + total_length(tail),
    decreases tail.len(),
{
    if tail.len() == 0 {
        assert(seq![head] + tail =~= seq![head]);
        assert(seq![head].drop_last() =~= Seq::<Seq<char>>::empty());
        assert(total_length(seq![head].drop_last()) == 0);
        assert(seq![head].last() == head);
    } else {
        lemma_total_length_cons(head, tail.drop_last());
        assert((seq![head] + tail).drop_last() =~= seq![head] + tail.drop_last());
        assert((seq![head] + tail).last() == tail.last());
    }
}

/// A template without a marker is its own literal text, has no expression,
/// and gives the call of `func` with the template as its only argument.
pub proof fn law_no_marker_no_change(func: Seq<char>, text: Seq<char>, re: regex::Regex)
    requires
        marker_start(text, 0, false) is None,
    ensures
        split(text, 0, re) == Ok::<_, ScanError>(
            (text, Seq::<Seq<char>>::empty()),
        ),
        ex_output(func, text, Some(re)) == Ok::<_, ScanError>(
            func + seq!['!', '('] + text + seq![')'],
        ),
{
    assert(text.subrange(0, text.len() as int) =~= text);
    assert(call_text(func, text, Seq::empty()) =~= func + seq!['!', '('] + text + seq![')']);
}

} // verus!
