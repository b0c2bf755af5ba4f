use chat_core::parser::parse;

#[test]
fn test() {
    assert_eq!(parse(r#"hello world"#), vec!["hello", "world"]);
    assert_eq!(parse(r#""hello world""#), vec!["hello world"]);
    assert_eq!(parse(r#"hel"lo wor"ld"#), vec!["hel\"lo", "wor\"ld"]);
    assert_eq!(parse(r#"hello\ world"#), vec!["hello\\ world"]);
    assert_eq!(parse(r#"\h\e\l\l\o world"#), vec!["\\h\\e\\l\\l\\o", "world"]);
    assert_eq!(parse(r#"\"hello world\""#), vec!["\"hello", "world\""]);
    assert_eq!(parse(r#"\\\"hello world\\\""#), vec!["\\\"hello", "world\\\""]);
}

#[test]
fn parse_keeps_empty_words_between_spaces() {
    assert_eq!(parse("a  b"), vec!["a", "", "b"]);
    assert_eq!(parse(""), Vec::<String>::new());
    assert_eq!(parse(" "), vec![""]);
}

#[test]
fn parse_keeps_a_trailing_backslash() {
    assert_eq!(parse("end\\"), vec!["end\\"]);
    assert_eq!(parse("\\"), vec!["\\"]);
}
