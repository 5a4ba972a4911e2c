//! Skippers for the regions of an expression in which braces do not count:
//! quoted strings, character literals, raw strings and comments.
//!
//! Every skipper takes the text and the position that follows the codepoint
//! which opened the region, and gives the position at which scanning resumes.

use vstd::prelude::*;

verus! {

/// Stands for "no significant previous codepoint".
pub const NUL: char = '\0';

/// An ASCII letter or an underscore.
pub open spec fn ident_start(c: char) -> bool {
    ('a' <= c && c <= 'z') || ('A' <= c && c <= 'Z') || c == '_'
}

/// An ASCII letter, an ASCII digit or an underscore.
pub open spec fn ident_char(c: char) -> bool {
    ident_start(c) || ('0' <= c && c <= '9')
}

pub fn is_ident_start(c: char) -> (b: bool)
    ensures
        b == ident_start(c),
{
    ('a' <= c && c <= 'z') || ('A' <= c && c <= 'Z') || c == '_'
}

pub fn is_ident_char(c: char) -> (b: bool)
    ensures
        b == ident_char(c),
{
    is_ident_start(c) || ('0' <= c && c <= '9')
}

/// The position of an exec result as a mathematical integer.
pub open spec fn position(r: Option<usize>) -> Option<int> {
    match r {
        Some(p) => Some(p as int),
        None => None,
    }
}

/// The position and previous codepoint of an exec result.
pub open spec fn resumption(r: Option<(usize, char)>) -> Option<(int, char)> {
    match r {
        Some((p, c)) => Some((p as int, c)),
        None => None,
    }
}

/// `text[i]` is `quote` and is not escaped: it is the codepoint at `first`, or
/// the codepoint before it is no backslash.
pub open spec fn closes_quote(text: Seq<char>, quote: char, first: int, i: int) -> bool {
    text[i] == quote && (i == first || text[i - 1] != '\\')
}

/// The position after the first closing `quote` at or after `i`, if there is one.
pub open spec fn quote_end(text: Seq<char>, quote: char, first: int, i: int) -> Option<int>
    decreases text.len() - i,
{
    if i < 0 || i >= text.len() {
        None
    } else if closes_quote(text, quote, first, i) {
        Some(i + 1)
    } else {
        quote_end(text, quote, first, i + 1)
    }
}

/// Skips to the position after the first unescaped `quote` at or after `from`.
/// The codepoint at `first` counts as unescaped whatever precedes it.
pub fn skip_quoted(text: &[char], quote: char, first: usize, from: usize) -> (r: Option<usize>)
    requires
        first <= from <= text@.len(),
    ensures
        position(r) == quote_end(text@, quote, first as int, from as int),
        match r {
            Some(e) => from < e <= text@.len() && closes_quote(text@, quote, first as int, e - 1)
                && forall|k: int| from <= k < e - 1 ==> !closes_quote(text@, quote, first as int, k),
            None => forall|k: int|
                from <= k < text@.len() ==> !closes_quote(text@, quote, first as int, k),
        },
{
    let mut i: usize = from;
    while i < text.len()
        invariant
            from <= i <= text@.len(),
            first <= from,
            quote_end(text@, quote, first as int, from as int) == quote_end(
                text@,
                quote,
                first as int,
                i as int,
            ),
            forall|k: int| from <= k < i ==> !closes_quote(text@, quote, first as int, k),
        decreases text@.len() - i,
    {
        if text[i] == quote && (i == first || text[i - 1] != '\\') {
            return Some(i + 1);
        }
        i += 1;
    }
    None
}

/// Skips a quoted string whose opening quote stands just before `pos`: to the
/// position after the first `"` that no backslash precedes. `None` where the
/// text ends inside the string.
pub fn do_string(text: &[char], pos: usize) -> (r: Option<usize>)
    requires
        pos <= text@.len(),
    ensures
        position(r) == quote_end(text@, '"', pos as int, pos as int),
        match r {
            Some(e) => pos < e <= text@.len() && closes_quote(text@, '"', pos as int, e - 1)
                && forall|k: int| pos <= k < e - 1 ==> !closes_quote(text@, '"', pos as int, k),
            None => forall|k: int|
                pos <= k < text@.len() ==> !closes_quote(text@, '"', pos as int, k),
        },
{
    skip_quoted(text, '"', pos, pos)
}

/// The first position at or after `i` that holds no identifier codepoint.
pub open spec fn ident_run_end(text: Seq<char>, i: int) -> int
    decreases text.len() - i,
{
    if 0 <= i < text.len() && ident_char(text[i]) {
        ident_run_end(text, i + 1)
    } else {
        i
    }
}

/// Where scanning resumes after a `'` that stands just before `pos`.
///
/// A letter or underscore starts a name: the name is skipped, and a `'` that
/// follows it directly is skipped too (a character literal); without one it
/// was a lifetime or a label, which may end the text. Anything else starts a
/// character literal that runs to the first `'` that no backslash precedes.
/// `None` where the text ends at once or inside such a literal.
pub open spec fn char_end(text: Seq<char>, pos: int) -> Option<int> {
    if pos < 0 || pos >= text.len() {
        None
    } else if ident_start(text[pos]) {
        let e = ident_run_end(text, pos + 1);
        if e < text.len() && text[e] == '\'' {
            Some(e + 1)
        } else {
            Some(e)
        }
    } else {
        quote_end(text, '\'', pos, pos + 1)
    }
}

/// Skips the run of identifier codepoints that starts at `from`.
pub fn skip_ident(text: &[char], from: usize) -> (r: usize)
    requires
        from <= text@.len(),
    ensures
        r as int == ident_run_end(text@, from as int),
        from <= r <= text@.len(),
        forall|k: int| from <= k < r ==> ident_char(text@[k]),
        r < text@.len() ==> !ident_char(text@[r as int]),
{
    let mut i: usize = from;
    while i < text.len() && is_ident_char(text[i])
        invariant
            from <= i <= text@.len(),
            ident_run_end(text@, from as int) == ident_run_end(text@, i as int),
            forall|k: int| from <= k < i ==> ident_char(text@[k]),
        decreases text@.len() - i,
    {
        i += 1;
    }
    i
}

/// Skips a character literal, or a lifetime or label, whose `'` stands just
/// before `pos`. `None` where the text ends inside a character literal.
pub fn try_char(text: &[char], pos: usize) -> (r: Option<usize>)
    requires
        pos <= text@.len(),
    ensures
        position(r) == char_end(text@, pos as int),
        r matches Some(e) ==> pos < e <= text@.len(),
{
    if pos >= text.len() {
        return None;
    }
    if is_ident_start(text[pos]) {
        let e = skip_ident(text, pos + 1);
        if e < text.len() && text[e] == '\'' {
            Some(e + 1)
        } else {
            Some(e)
        }
    } else {
        skip_quoted(text, '\'', pos, pos + 1)
    }
}

/// The first position at or after `i` that holds no `#`.
pub open spec fn hash_run_end(text: Seq<char>, i: int) -> int
    decreases text.len() - i,
{
    if 0 <= i < text.len() && text[i] == '#' {
        hash_run_end(text, i + 1)
    } else {
        i
    }
}

/// Skips the run of `#` that starts at `from`.
pub fn skip_hashes(text: &[char], from: usize) -> (r: usize)
    requires
        from <= text@.len(),
    ensures
        r as int == hash_run_end(text@, from as int),
        from <= r <= text@.len(),
        forall|k: int| from <= k < r ==> text@[k] == '#',
        r < text@.len() ==> text@[r as int] != '#',
{
    let mut i: usize = from;
    while i < text.len() && text[i] == '#'
        invariant
            from <= i <= text@.len(),
            hash_run_end(text@, from as int) == hash_run_end(text@, i as int),
            forall|k: int| from <= k < i ==> text@[k] == '#',
        decreases text@.len() - i,
    {
        i += 1;
    }
    i
}

/// `text[i]` is a `"` that at least `hashes` codepoints `#` follow: the
/// delimiter that ends a raw string opened with that many.
pub open spec fn closes_raw(text: Seq<char>, hashes: nat, i: int) -> bool {
    text[i] == '"' && hash_run_end(text, i + 1) - (i + 1) >= hashes
}

/// The position after the first closing delimiter of a raw string that starts
/// at or after `i`, if there is one.
pub open spec fn raw_string_end(text: Seq<char>, hashes: nat, i: int) -> Option<int>
    decreases text.len() - i,
{
    if i < 0 || i >= text.len() {
        None
    } else if closes_raw(text, hashes, i) {
        Some(i + 1 + hashes)
    } else {
        raw_string_end(text, hashes, i + 1)
    }
}

/// Skips the body of a raw string that was opened with `depth` codepoints `#`
/// and whose opening quote stands just before `pos`: to the position after
/// the first `"` followed by `depth` codepoints `#`. `None` where the text
/// ends before that.
pub fn do_raw_string(text: &[char], pos: usize, depth: usize) -> (r: Option<usize>)
    requires
        pos <= text@.len(),
    ensures
        position(r) == raw_string_end(text@, depth as nat, pos as int),
        match r {
            Some(e) => pos + depth < e <= text@.len() && closes_raw(
                text@,
                depth as nat,
                e - 1 - depth,
            ) && forall|k: int| pos <= k < e - 1 - depth ==> !closes_raw(text@, depth as nat, k),
            None => forall|k: int| pos <= k < text@.len() ==> !closes_raw(text@, depth as nat, k),
        },
{
    let mut i: usize = pos;
    while i < text.len()
        invariant
            pos <= i <= text@.len(),
            raw_string_end(text@, depth as nat, pos as int) == raw_string_end(
                text@,
                depth as nat,
                i as int,
            ),
            forall|k: int| pos <= k < i ==> !closes_raw(text@, depth as nat, k),
        decreases text@.len() - i,
    {
        if text[i] == '"' {
            let h = skip_hashes(text, i + 1);
            if h - (i + 1) >= depth {
                return Some(i + 1 + depth);
            }
        }
        i += 1;
    }
    None
}

/// Where scanning resumes after an `r` that stands just before `pos`, and the
/// previous codepoint to resume with.
///
/// After an identifier codepoint the `r` belongs to a name. Otherwise the `#`
/// that follow are counted; if a `"` comes next, a raw string with that many
/// `#` is skipped, and else the `r` is an ordinary codepoint and nothing is
/// skipped.
pub open spec fn raw_string_step(text: Seq<char>, pos: int, prev: char) -> Option<(int, char)> {
    let h = hash_run_end(text, pos);
    if !ident_char(prev) && 0 <= pos <= h < text.len() && text[h] == '"' {
        match raw_string_end(text, (h - pos) as nat, h + 1) {
            Some(e) => Some((e, NUL)),
            None => None,
        }
    } else {
        Some((pos, 'r'))
    }
}

/// Skips a raw string if the `r` just before `pos` starts one. `None` where
/// the text ends inside the raw string.
pub fn try_raw_string(text: &[char], pos: usize, prev_c: char) -> (r: Option<(usize, char)>)
    requires
        pos <= text@.len(),
    ensures
        resumption(r) == raw_string_step(text@, pos as int, prev_c),
        r matches Some((e, _)) ==> pos <= e <= text@.len(),
{
    if is_ident_char(prev_c) {
        return Some((pos, 'r'));
    }
    let h = skip_hashes(text, pos);
    if h < text.len() && text[h] == '"' {
        match do_raw_string(text, h + 1, h - pos) {
            Some(e) => Some((e, NUL)),
            None => None,
        }
    } else {
        Some((pos, 'r'))
    }
}

/// The position of the first newline at or after `i`, or the end of the text.
pub open spec fn line_end(text: Seq<char>, i: int) -> int
    decreases text.len() - i,
{
    if i < 0 || i >= text.len() || text[i] == '\n' {
        i
    } else {
        line_end(text, i + 1)
    }
}

/// Where scanning resumes after a `/` that stands just before `pos`: after a
/// `/` it starts a line comment, which runs up to the next newline or to
/// the end of the text.
pub open spec fn line_comment_step(text: Seq<char>, pos: int, prev: char) -> (int, char) {
    if prev == '/' {
        (line_end(text, pos), NUL)
    } else {
        (pos, '/')
    }
}

/// Skips a line comment if the `/` just before `pos` is the second of two.
pub fn try_line_comment(text: &[char], pos: usize, prev_c: char) -> (r: (usize, char))
    requires
        pos <= text@.len(),
    ensures
        (r.0 as int, r.1) == line_comment_step(text@, pos as int, prev_c),
        pos <= r.0 <= text@.len(),
        prev_c == '/' ==> forall|k: int| pos <= k < r.0 ==> text@[k] != '\n',
        prev_c == '/' && r.0 < text@.len() ==> text@[r.0 as int] == '\n',
{
    if prev_c != '/' {
        return (pos, '/');
    }
    let mut i: usize = pos;
    while i < text.len()
        invariant
            prev_c == '/',
            pos <= i <= text@.len(),
            line_end(text@, pos as int) == line_end(text@, i as int),
            forall|k: int| pos <= k < i ==> text@[k] != '\n',
        decreases text@.len() - i,
    {
        if text[i] == '\n' {
            return (i, NUL);
        }
        i += 1;
    }
    (i, NUL)
}

/// The position after the `*/` that closes a block comment, scanning from
/// `i` inside `open` comments, one in another, with `prev` the previous
/// codepoint, or `NUL` after a delimiter.
pub open spec fn block_comment_end(text: Seq<char>, i: int, prev: char, open: nat) -> Option<int>
    decreases text.len() - i,
{
    if i < 0 || i >= text.len() {
        None
    } else if prev == '/' && text[i] == '*' {
        block_comment_end(text, i + 1, NUL, open + 1)
    } else if prev == '*' && text[i] == '/' {
        if open <= 1 {
            Some(i + 1)
        } else {
            block_comment_end(text, i + 1, NUL, (open - 1) as nat)
        }
    } else {
        block_comment_end(text, i + 1, text[i], open)
    }
}

/// Where scanning resumes after a `*` that stands just before `pos`: after a
/// `/` it opens a block comment, which is skipped with those nested in it.
pub open spec fn block_comment_step(text: Seq<char>, pos: int, prev: char) -> Option<(int, char)> {
    if prev == '/' {
        match block_comment_end(text, pos, NUL, 1) {
            Some(e) => Some((e, NUL)),
            None => None,
        }
    } else {
        Some((pos, '*'))
    }
}

/// Skips a block comment if the `*` just before `pos` follows a `/`. `None`
/// where the text ends inside the comment.
pub fn try_block_comment(text: &[char], pos: usize, prev_c: char) -> (r: Option<(usize, char)>)
    requires
        pos <= text@.len(),
    ensures
        resumption(r) == block_comment_step(text@, pos as int, prev_c),
        r matches Some((e, _)) ==> pos <= e <= text@.len(),
{
    if prev_c != '/' {
        return Some((pos, '*'));
    }
    let mut i: usize = pos;
    let mut prev: char = NUL;
    let mut open: usize = 1;
    while i < text.len()
        invariant
            prev_c == '/',
            pos <= i <= text@.len(),
            1 <= open,
            open + (if prev != NUL { 1int } else { 0int }) <= i - pos + 1,
            block_comment_end(text@, pos as int, NUL, 1) == block_comment_end(
                text@,
                i as int,
                prev,
                open as nat,
            ),
        decreases text@.len() - i,
    {
        let c = text[i];
        if prev == '/' && c == '*' {
            open += 1;
            prev = NUL;
        } else if prev == '*' && c == '/' {
            if open == 1 {
                return Some((i + 1, NUL));
            }
            open -= 1;
            prev = NUL;
        } else {
            prev = c;
        }
        i += 1;
    }
    None
}

} // verus!
