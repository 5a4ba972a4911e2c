use expression_format_impl::segmenter::ex_impl;

#[test]
fn test_unbalanced_bracket_in_string_with_escape() {
    test_helper(r#""lorem {"{\"{"} ipsum""#, r#""lorem {} ipsum","{\"{""#);
}

#[test]
fn test_unbalanced_bracket_in_char() {
    test_helper(r#""lorem {'{'} ipsum""#, r#""lorem {} ipsum",'{'"#);
}

#[test]
fn test_unbalanced_bracket_in_string() {
    test_helper(
        r#""lorem {"{dolor"} ipsum""#,
        r#""lorem {} ipsum","{dolor""#,
    );
}

#[test]
fn test_struct_create() {
    test_helper(
        r#""lorem {Dolor{sit:"amet"}} ipsum""#,
        r#""lorem {} ipsum",Dolor{sit:"amet"}"#,
    );
}

#[test]
fn test_literal_string() {
    test_helper(
        r#""lorem {"dolor sit amet"} ipsum""#,
        r#""lorem {} ipsum","dolor sit amet""#,
    );
}

#[test]
fn test_consecutive_formats() {
    test_helper(r#""{lorem}{ipsum}""#, r#""{}{}",lorem,ipsum"#);
}

#[test]
fn test_escaped_open_brackets() {
    test_helper(r#""lorem {{ ipsum""#, r#""lorem {{ ipsum""#);
}

#[test]
fn test_escaped_close_brackets() {
    test_helper(r#""lorem }} ipsum""#, r#""lorem }} ipsum""#);
}

#[test]
fn test_escaped_brackets() {
    test_helper(r#""{{}}""#, r#""{{}}""#);
}

#[test]
fn test_no_format() {
    test_helper(r#""lorem ipsum""#, r#""lorem ipsum""#);
}

#[test]
fn test_no_arg() {
    test_helper("", "");
}

#[test]
fn test_empty_str_arg() {
    test_helper(r#""""#, r#""""#);
}

#[test]
fn test_empty_marker() {
    test_helper(r#""lorem {} ipsum""#, r#""lorem {} ipsum","#);
}

#[test]
fn test_literal_number() {
    test_helper(r#""lorem {123} ipsum""#, r#""lorem {} ipsum",123"#);
}

#[test]
fn test_one_argument() {
    test_helper(r#""lorem {dolor} ipsum""#, r#""lorem {} ipsum",dolor"#);
}

#[test]
fn test_multiple_same_argument() {
    test_helper(
        r#""lorem {dolor} ipsum {dolor} sit {dolor} amet""#,
        r#""lorem {} ipsum {} sit {} amet",dolor,dolor,dolor"#,
    );
}

#[test]
fn test_multiple_arguments() {
    test_helper(
        r#""lorem {ipsum} dolor {sit} amet, {consectetur} adipiscing""#,
        r#""lorem {} dolor {} amet, {} adipiscing",ipsum,sit,consectetur"#,
    );
}

#[test]
fn test_nested_argument() {
    test_helper(
        r#""lorem {dolor.sit} ipsum""#,
        r#""lorem {} ipsum",dolor.sit"#,
    );
}

#[test]
fn test_array_argument() {
    test_helper(
        r#""lorem {dolor[0]} ipsum""#,
        r#""lorem {} ipsum",dolor[0]"#,
    );
}

#[test]
fn test_function_argument() {
    test_helper(
        r#""lorem {dolor(arg)} ipsum""#,
        r#""lorem {} ipsum",dolor(arg)"#,
    );
}

#[test]
fn test_debug_argument() {
    test_helper(r#""lorem {:?dolor} ipsum""#, r#""lorem {:?} ipsum",dolor"#);
}

#[test]
fn test_mixed_empty_argument() {
    test_helper(
        r#""lorem {dolor} ipsum {} sit""#,
        r#""lorem {} ipsum {} sit",dolor,"#,
    );
}

#[test]
fn test_quote_outside_expression() {
    test_helper(r#""lorem "{"ipsum"}"""#, r#""lorem "{}"","ipsum""#);
}

#[test]
fn test_raw_string() {
    test_helper(
        r###""{r##""{lorem}"#"{""##} {ipsum}""###,
        r###""{} {}",r##""{lorem}"#"{""##,ipsum"###,
    );
}

#[test]
fn test_line_comment() {
    test_helper(
        r#""{ {// lorem ipsum { "
"dolor"} }""#,
        r#""{}", {// lorem ipsum { "
"dolor"} "#,
    );
}

#[test]
fn test_block_comment() {
    test_helper(r#""{/*lorem { ipsum*/10}""#, r#""{}",/*lorem { ipsum*/10"#);
}

#[test]
fn test_nested_block_comment() {
    test_helper(
        r#""lorem {/*/*inside comment*/still inside comment*/"ipsum"}""#,
        r#""lorem {}",/*/*inside comment*/still inside comment*/"ipsum""#,
    );
}

#[test]
fn test_format_width() {
    test_helper(r#""{:04 42}""#, r#""{:04}", 42"#);
}

#[test]
fn test_format_alignment_with_char() {
    test_helper(r#""{:'>10 "test"}""#, r#""{:'>10}", "test""#);
}

fn test_helper(in_arg: &str, out_arg: &str) {
    let expected = format!("format!({})", out_arg);
    assert_eq!(ex_impl("format", in_arg), Ok(expected));
}
