use expression_format_impl::boundary::{find_expr_end, find_expr_start, Unterminated};
use expression_format_impl::error::ScanError;
use expression_format_impl::literals::{
    do_raw_string, do_string, try_block_comment, try_char, try_line_comment, try_raw_string,
};
use expression_format_impl::modifier::{modifier_regex, regex_of, MODIFIER_PATTERN};
use expression_format_impl::segmenter::{
    ex_impl, range_in_brackets, region_after_modifier, split_template, to_chars,
};

fn chars(s: &str) -> Vec<char> {
    s.chars().collect()
}

#[test]
fn start_follows_single_brace() {
    let t = chars("ab{cd}");
    assert_eq!(find_expr_start(&t, 0), Some(3));
    assert_eq!(find_expr_start(&t, 3), None);
}

#[test]
fn start_skips_escaped_pairs() {
    assert_eq!(find_expr_start(&chars("{{x"), 0), None);
    assert_eq!(find_expr_start(&chars("{{{x}"), 0), Some(3));
    assert_eq!(find_expr_start(&chars("{{{{x}"), 0), None);
    assert_eq!(find_expr_start(&chars("a{"), 0), None);
    assert_eq!(find_expr_start(&chars(""), 0), None);
}

#[test]
fn end_is_matching_brace() {
    assert_eq!(find_expr_end(&chars("a{b}c}d"), 0), Ok(5));
    assert_eq!(find_expr_end(&chars("}"), 0), Ok(0));
    assert_eq!(find_expr_end(&chars("x}"), 2), Err(Unterminated::Marker));
}

#[test]
fn end_reports_unbalanced_braces() {
    assert_eq!(find_expr_end(&chars("a{b}"), 0), Err(Unterminated::Marker));
    assert_eq!(find_expr_end(&chars(""), 0), Err(Unterminated::Marker));
    assert_eq!(find_expr_end(&chars("// } "), 0), Err(Unterminated::Marker));
    assert_eq!(find_expr_end(&chars("'a"), 0), Err(Unterminated::Marker));
    assert_eq!(find_expr_end(&chars("r##"), 0), Err(Unterminated::Marker));
}

#[test]
fn end_reports_open_literals() {
    assert_eq!(find_expr_end(&chars("\"}"), 0), Err(Unterminated::Literal));
    assert_eq!(find_expr_end(&chars("'}"), 0), Err(Unterminated::Literal));
    assert_eq!(find_expr_end(&chars("x'"), 0), Err(Unterminated::Literal));
    assert_eq!(find_expr_end(&chars("r#\"}\"}"), 0), Err(Unterminated::Literal));
    assert_eq!(find_expr_end(&chars("/* } "), 0), Err(Unterminated::Literal));
}

#[test]
fn end_ignores_braces_in_literals() {
    assert_eq!(find_expr_end(&chars("\"}\"}"), 0), Ok(3));
    assert_eq!(find_expr_end(&chars("'}'}"), 0), Ok(3));
    assert_eq!(find_expr_end(&chars("'\\''}"), 0), Ok(4));
    assert_eq!(find_expr_end(&chars("r#\"}\"#}"), 0), Ok(6));
    assert_eq!(find_expr_end(&chars("/*}*/}"), 0), Ok(5));
    assert_eq!(find_expr_end(&chars("//}\n}"), 0), Ok(4));
}

#[test]
fn end_takes_r_in_a_name_as_ordinary() {
    // `bar"` ends in an `r` that belongs to a name: the quote opens a plain string.
    assert_eq!(find_expr_end(&chars("bar\"}\"}"), 0), Ok(6));
    assert_eq!(find_expr_end(&chars("r}"), 0), Ok(1));
    assert_eq!(find_expr_end(&chars("r#x}"), 0), Ok(3));
}

#[test]
fn end_knows_lifetimes_from_characters() {
    assert_eq!(find_expr_end(&chars("'a: loop {}}"), 0), Ok(11));
    assert_eq!(find_expr_end(&chars("'a'}"), 0), Ok(3));
    assert_eq!(find_expr_end(&chars("'{'}"), 0), Ok(3));
}

#[test]
fn string_ends_at_unescaped_quote() {
    assert_eq!(do_string(&chars("ab\"c"), 0), Some(3));
    assert_eq!(do_string(&chars("a\\\"b\"c"), 0), Some(5));
    assert_eq!(do_string(&chars("\""), 0), Some(1));
    assert_eq!(do_string(&chars("\\\""), 1), Some(2));
    assert_eq!(do_string(&chars("abc"), 0), None);
    assert_eq!(do_string(&chars("abc"), 3), None);
}

#[test]
fn char_literal_and_lifetime() {
    assert_eq!(try_char(&chars("a'x"), 0), Some(2));
    assert_eq!(try_char(&chars("abc x"), 0), Some(3));
    assert_eq!(try_char(&chars("a_1"), 0), Some(3));
    assert_eq!(try_char(&chars("\\n'x"), 0), Some(3));
    assert_eq!(try_char(&chars("\\''x"), 0), Some(3));
    assert_eq!(try_char(&chars("{'"), 0), Some(2));
    assert_eq!(try_char(&chars("1"), 0), None);
    assert_eq!(try_char(&chars(""), 0), None);
}

#[test]
fn raw_string_needs_all_hashes() {
    assert_eq!(do_raw_string(&chars("a\"b"), 0, 0), Some(2));
    assert_eq!(do_raw_string(&chars("a\"#b\"##c"), 0, 2), Some(7));
    assert_eq!(do_raw_string(&chars("a\"###"), 0, 2), Some(4));
    assert_eq!(do_raw_string(&chars("a\"#"), 0, 2), None);
    assert_eq!(do_raw_string(&chars("##"), 0, 1), None);
}

#[test]
fn raw_string_prefix_is_probed() {
    assert_eq!(try_raw_string(&chars("r\"a\"b"), 1, '\0'), Some((4, '\0')));
    assert_eq!(try_raw_string(&chars("r##\"a\"#\"##b"), 1, ' '), Some((10, '\0')));
    assert_eq!(try_raw_string(&chars("r##a"), 1, '\0'), Some((1, 'r')));
    assert_eq!(try_raw_string(&chars("ar\"a\""), 2, 'a'), Some((2, 'r')));
    assert_eq!(try_raw_string(&chars("_r\"a\""), 2, '_'), Some((2, 'r')));
    assert_eq!(try_raw_string(&chars("9r\"a\""), 2, '9'), Some((2, 'r')));
    assert_eq!(try_raw_string(&chars("r#\"a\""), 1, '\0'), None);
}

#[test]
fn line_comment_runs_up_to_newline() {
    assert_eq!(try_line_comment(&chars("//ab\ncd"), 2, '/'), (4, '\0'));
    assert_eq!(try_line_comment(&chars("//\n"), 2, '/'), (2, '\0'));
    assert_eq!(try_line_comment(&chars("//ab"), 2, '/'), (4, '\0'));
    assert_eq!(try_line_comment(&chars("a/b"), 2, 'a'), (2, '/'));
}

#[test]
fn block_comments_nest() {
    assert_eq!(try_block_comment(&chars("/*a*/b"), 2, '/'), Some((5, '\0')));
    assert_eq!(try_block_comment(&chars("/*/*a*/b*/c"), 2, '/'), Some((10, '\0')));
    assert_eq!(try_block_comment(&chars("/*/*a*/b"), 2, '/'), None);
    assert_eq!(try_block_comment(&chars("/*/"), 2, '/'), None);
    assert_eq!(try_block_comment(&chars("a*b"), 2, 'a'), Some((2, '*')));
}

#[test]
fn region_skips_the_given_modifier() {
    let t = chars("{:04 42}");
    assert_eq!(region_after_modifier(&t, 1, Some(3)), Ok((4, 7)));
    assert_eq!(region_after_modifier(&t, 1, None), Ok((1, 7)));
    assert_eq!(
        region_after_modifier(&chars("{ab"), 1, None),
        Err(ScanError::UnterminatedMarker { start: 1 })
    );
    assert_eq!(
        region_after_modifier(&chars("{:?\"b"), 1, Some(2)),
        Err(ScanError::UnterminatedLiteral { start: 1 })
    );
}

#[test]
fn range_finds_regions_in_turn() {
    let re = modifier_regex().unwrap();
    let t = chars("a {b} {:>8 c} d");
    assert_eq!(range_in_brackets(&t, 0, &re), Ok(Some((3, 4))));
    assert_eq!(range_in_brackets(&t, 4, &re), Ok(Some((10, 12))));
    assert_eq!(range_in_brackets(&t, 12, &re), Ok(None));
}

#[test]
fn range_counts_codepoints() {
    let re = modifier_regex().unwrap();
    let t = chars("äö {:é^5 ü}");
    assert_eq!(range_in_brackets(&t, 0, &re), Ok(Some((8, 10))));
}

#[test]
fn modifier_tags_are_kept_in_the_template() {
    assert_eq!(ex_impl("print", "\"{:+#010.3e? x}\""), Ok("print!(\"{:+#010.3e?}\", x)".to_string()));
    assert_eq!(ex_impl("print", "\"{:é^5 ü}\""), Ok("print!(\"{:é^5}\", ü)".to_string()));
    assert_eq!(ex_impl("print", "\"{:x}\""), Ok("print!(\"{:x}\",)".to_string()));
    assert_eq!(ex_impl("print", "\"{: x}\""), Ok("print!(\"{:}\", x)".to_string()));
    assert_eq!(ex_impl("print", "\"{x:?}\""), Ok("print!(\"{}\",x:?)".to_string()));
}

#[test]
fn every_function_name_is_taken_as_given() {
    assert_eq!(ex_impl("println", "\"{a}\""), Ok("println!(\"{}\",a)".to_string()));
    assert_eq!(ex_impl("eprint", "\"{a}\""), Ok("eprint!(\"{}\",a)".to_string()));
    assert_eq!(ex_impl("eprintln", "\"{a}\", b"), Ok("eprintln!(\"{}\", b,a)".to_string()));
}

#[test]
fn as_many_arguments_as_markers() {
    let out = ex_impl("format", "\"{a} {b} {} {c}\"").unwrap();
    assert_eq!(out, "format!(\"{} {} {} {}\",a,b,,c)");
    assert_eq!(out.matches(',').count(), 4);
}

#[test]
fn template_without_markers_is_unchanged() {
    assert_eq!(ex_impl("format", "\"lorem {{ipsum}} dolor\""), Ok("format!(\"lorem {{ipsum}} dolor\")".to_string()));
    assert_eq!(ex_impl("format", "lorem"), Ok("format!(lorem)".to_string()));
}

#[test]
fn unclosed_marker_is_an_error() {
    assert_eq!(ex_impl("format", "lorem {ipsum"), Err(ScanError::UnterminatedMarker { start: 7 }));
    assert_eq!(ex_impl("format", "{a} {b{c}"), Err(ScanError::UnterminatedMarker { start: 5 }));
    assert_eq!(ex_impl("format", "é{:<3 a"), Err(ScanError::UnterminatedMarker { start: 2 }));
}

#[test]
fn unclosed_literal_is_an_error() {
    assert_eq!(ex_impl("format", "\"lorem {ipsum\""), Err(ScanError::UnterminatedLiteral { start: 8 }));
    assert_eq!(ex_impl("format", "{a} {/* b}"), Err(ScanError::UnterminatedLiteral { start: 5 }));
    assert_eq!(ex_impl("format", "{r#\"a\"}"), Err(ScanError::UnterminatedLiteral { start: 1 }));
    assert_eq!(ex_impl("format", "{'}'}"), Ok("format!({},'}')".to_string()));
    assert_eq!(ex_impl("format", "{'%}"), Err(ScanError::UnterminatedLiteral { start: 1 }));
}

#[test]
fn codepoints_of_a_string() {
    assert_eq!(to_chars("aé{"), vec!['a', 'é', '{']);
    assert_eq!(to_chars(""), Vec::<char>::new());
}

fn halves(arg: &str) -> Result<(String, String), ScanError> {
    split_template(arg, &modifier_regex().unwrap())
}

fn pair(literal: &str, trailing: &str) -> Result<(String, String), ScanError> {
    Ok((literal.to_string(), trailing.to_string()))
}

#[test]
fn escaped_braces_stay_in_the_literal() {
    assert_eq!(halves("\"lorem {{ ipsum\""), pair("\"lorem {{ ipsum\"", ""));
    assert_eq!(halves("{{a}} {b} {{c}}"), pair("{{a}} {} {{c}}", ",b"));
}

#[test]
fn nested_braces_stay_in_the_expression() {
    assert_eq!(
        halves("\"lorem {Dolor{sit:\"amet\"}} ipsum\""),
        pair("\"lorem {} ipsum\"", ",Dolor{sit:\"amet\"}")
    );
}

#[test]
fn modifier_is_stripped_from_the_expression() {
    assert_eq!(halves("\"{:04 42}\""), pair("\"{:04}\"", ", 42"));
    assert_eq!(halves("{:^10.3}"), pair("{:^10.3}", ","));
}

#[test]
fn raw_string_is_one_expression() {
    assert_eq!(
        halves("{r##\"\"{lorem}\"#\"{\"\"##} {ipsum}"),
        pair("{} {}", ",r##\"\"{lorem}\"#\"{\"\"##,ipsum")
    );
}

#[test]
fn braces_in_comments_do_not_count() {
    assert_eq!(halves("{// {\n1}"), pair("{}", ",// {\n1"));
    assert_eq!(halves("{/* } */ 1}"), pair("{}", ",/* } */ 1"));
}

#[test]
fn identical_markers_are_kept_apart() {
    assert_eq!(
        halves("\"lorem {dolor} ipsum {dolor} sit {dolor} amet\""),
        pair("\"lorem {} ipsum {} sit {} amet\"", ",dolor,dolor,dolor")
    );
}

#[test]
fn empty_template_has_no_expression() {
    assert_eq!(halves(""), pair("", ""));
    assert_eq!(ex_impl("format", ""), Ok("format!()".to_string()));
}

#[test]
fn nothing_is_split_on_failure() {
    assert_eq!(halves("{a} {b"), Err(ScanError::UnterminatedMarker { start: 5 }));
    assert_eq!(halves("{a} {\"b}"), Err(ScanError::UnterminatedLiteral { start: 5 }));
}

#[test]
fn refused_pattern_is_an_error() {
    assert!(matches!(regex_of("("), Err(ScanError::InvalidPattern)));
    assert!(matches!(regex_of("[a"), Err(ScanError::InvalidPattern)));
    assert!(regex_of(MODIFIER_PATTERN).is_ok());
    assert!(modifier_regex().is_ok());
}

#[test]
fn other_pattern_gives_other_regions() {
    let re = regex_of("^!+").unwrap();
    let t = chars("{!!a} {:4 b}");
    assert_eq!(range_in_brackets(&t, 0, &re), Ok(Some((3, 4))));
    assert_eq!(range_in_brackets(&t, 4, &re), Ok(Some((7, 11))));
    assert_eq!(
        split_template("{!!a} {:4 b}", &re),
        Ok(("{!!} {}".to_string(), ",a,:4 b".to_string()))
    );
}
