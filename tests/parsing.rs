use mdcards::card::Card;
use mdcards::parse::{parse_line, parse_md, Attribute, ParseError, Type};
use mdcards::tags::{combine_tags, sanitize_tag};
use mdcards::text::split_lines;

fn fields(c: &Card) -> (&str, &str, &str) {
    (c.front.as_str(), c.back.as_str(), c.tags.as_str())
}

#[test]
fn question_card_round_trip() {
    let cards = parse_md("[](question)\n- What is 2+2?\n    4").ok().unwrap();
    assert_eq!(cards.len(), 1);
    assert_eq!(fields(&cards[0]), ("What is 2+2?", "4<br>", " "));
}

#[test]
fn directive_token_starts_at_index_three() {
    // "[x](question)" puts "(question" between index 3 and the parenthesis.
    let r = parse_md("[x](question)\n- What is 2+2?\n    4");
    assert_eq!(r.err(), Some(ParseError::UnknownAttribute(0)));
}

#[test]
fn definition_front_spans_index_four_to_star() {
    let cards = parse_md("[](definition)\n- term*\ndefinition body").ok().unwrap();
    assert_eq!(cards.len(), 1);
    assert_eq!(fields(&cards[0]), ("Define: rm*", "definition body<br>", " "));
}

#[test]
fn definition_star_too_early_is_skipped() {
    let cards = parse_md("[](definition)\n- a*cd*\nbody").ok().unwrap();
    assert_eq!(cards[0].front, "Define: cd*");
    let r = parse_md("[](definition)\n- a*c\nbody");
    assert_eq!(r.err(), Some(ParseError::UnexpectedEndOfLine(1)));
}

#[test]
fn malformed_sub_heading() {
    let r = parse_md("# main\n##badsub");
    assert_eq!(r.err(), Some(ParseError::UnexpectedEndOfLine(1)));
}

#[test]
fn blank_line_ends_question_section() {
    let cards = parse_md("[](question)\n- Q1\n\n- Q2").ok().unwrap();
    assert_eq!(cards.len(), 1);
    assert_eq!(cards[0].front, "Q1");
}

#[test]
fn unknown_attribute() {
    assert_eq!(parse_md("[x](essay)").err(), Some(ParseError::UnknownAttribute(0)));
    assert_eq!(parse_md("[](essay)").err(), Some(ParseError::UnknownAttribute(0)));
    assert_eq!(parse_md("[)").err(), Some(ParseError::UnknownAttribute(0)));
}

#[test]
fn back_lines_append_in_order() {
    let cards = parse_md("[](question)\n- Q\n    a\n    \n    b").ok().unwrap();
    assert_eq!(cards.len(), 1);
    assert_eq!(cards[0].back, "a<br><br>b<br>");
}

#[test]
fn fronts_are_non_empty() {
    let doc = "# t\n[](question)\n- one\n    x\n- two\n\n[](definition)\n- term word*\nbody\n";
    let cards = parse_md(doc).ok().unwrap();
    assert_eq!(cards.len(), 3);
    for c in &cards {
        assert!(!c.front.is_empty());
    }
    assert_eq!(cards[2].front, "Define: rm word*");
}

#[test]
fn tags_are_cleaned_per_field() {
    assert_eq!(sanitize_tag("a b,c"), "a_bc");
    assert_eq!(sanitize_tag(&sanitize_tag("x, y z")), sanitize_tag("x, y z"));
    assert_eq!(combine_tags("x ", " y"), "x_ _y");
    assert_eq!(sanitize_tag("x   y"), "x___y");
    assert_eq!(combine_tags("ab", "cd"), "ab cd");
    assert_eq!(combine_tags("", ""), " ");
}

#[test]
fn headings_set_tags() {
    let doc = "# Main Tag\n## x Sub,Tag\n[](question)\n- Q\n\n# Other\n[](question)\n- R";
    let cards = parse_md(doc).ok().unwrap();
    assert_eq!(cards.len(), 2);
    assert_eq!(cards[0].tags, "Main_Tag x_SubTag");
    assert_eq!(cards[1].tags, "Other x_SubTag");
}

#[test]
fn definition_body_closes_section() {
    let cards = parse_md("[](definition)\n- term one*\nbody\n- stray").ok().unwrap();
    assert_eq!(cards.len(), 1);
    assert_eq!(fields(&cards[0]), ("Define: rm one*", "body<br>", " "));
}

#[test]
fn back_line_without_card_is_dropped() {
    let cards = parse_md("[](question)\n    orphan\n- Q").ok().unwrap();
    assert_eq!(cards.len(), 1);
    assert_eq!(cards[0].back, "");
}

#[test]
fn error_variants() {
    assert_eq!(parse_md("[](question)\nx").err(), Some(ParseError::UnknownSymbol((1, 'x'))));
    assert_eq!(parse_md("#x").err(), Some(ParseError::UnknownSymbol((0, 'x'))));
    assert_eq!(parse_md("#").err(), Some(ParseError::UnexpectedEndOfLine(0)));
    assert_eq!(parse_md("[](question").err(), Some(ParseError::UnexpectedEndOfLine(0)));
    assert_eq!(parse_md("[](definition)\n\n").err(), Some(ParseError::UnexpectedEndOfLine(1)));
    assert_eq!(parse_md("[](question)\n-").err(), Some(ParseError::UnexpectedEndOfLine(1)));
    assert_eq!(parse_md("[](question)\n  x").err(), Some(ParseError::UnexpectedEndOfLine(1)));
}

#[test]
fn heading_inside_question_section_is_unknown() {
    assert_eq!(parse_md("[](question)\n- Q\n# T").err(), Some(ParseError::UnknownSymbol((2, '#'))));
}

#[test]
fn failure_stops_at_first_bad_line() {
    assert_eq!(parse_md("#x\n#y").err(), Some(ParseError::UnknownSymbol((0, 'x'))));
}

#[test]
fn empty_and_prose_documents() {
    assert_eq!(parse_md("").ok().unwrap().len(), 0);
    assert_eq!(parse_md("just prose\n- a dash\n").ok().unwrap().len(), 0);
}

#[test]
fn crlf_line_endings() {
    let cards = parse_md("# a\r\n[](question)\r\n- Q\r\n    A\r\n").ok().unwrap();
    assert_eq!(cards.len(), 1);
    assert_eq!(fields(&cards[0]), ("Q", "A<br>", "a "));
}

#[test]
fn lines_are_split() {
    assert_eq!(split_lines("a\nb\r\n\nc"), vec!["a", "b", "", "c"]);
    assert_eq!(split_lines("a\n"), vec!["a"]);
    assert_eq!(split_lines(""), Vec::<&str>::new());
    assert_eq!(split_lines("\n"), vec![""]);
}

#[test]
fn classify_lines() {
    let r = parse_line("# Topic", 0, None).ok().unwrap();
    assert_eq!((r.0, r.1.as_deref(), r.2), (Some(Attribute::MainTag), Some("Topic"), None));
    let r = parse_line("## a b", 0, None).ok().unwrap();
    assert_eq!((r.0, r.1.as_deref(), r.2), (Some(Attribute::SubTag), Some("a b"), None));
    let r = parse_line("##x y", 0, None).ok().unwrap();
    assert_eq!((r.0, r.1.as_deref(), r.2), (Some(Attribute::SubTag), Some("y"), None));
    let r = parse_line("[](definition)", 0, None).ok().unwrap();
    assert_eq!((r.0, r.1, r.2), (None, None, Some(Type::Definition)));
    let r = parse_line("- Q", 3, Some(Type::Question)).ok().unwrap();
    assert_eq!((r.0, r.1.as_deref(), r.2), (Some(Attribute::Front), Some("Q"), Some(Type::Question)));
    let r = parse_line("    ans", 3, Some(Type::Question)).ok().unwrap();
    assert_eq!((r.0, r.1.as_deref(), r.2), (Some(Attribute::Back), Some("ans"), Some(Type::Question)));
    let r = parse_line("", 3, Some(Type::Question)).ok().unwrap();
    assert_eq!((r.0, r.1, r.2), (None, None, None));
    let r = parse_line("text", 3, Some(Type::Definition)).ok().unwrap();
    assert_eq!((r.0, r.1.as_deref(), r.2), (Some(Attribute::Back), Some("text"), None));
    assert_eq!(parse_line("", 7, Some(Type::Definition)).err(), Some(ParseError::UnexpectedEndOfLine(7)));
}

#[test]
fn card_fields_and_export() {
    let mut c = Card::new("f".to_string(), "".to_string(), "t".to_string());
    c.add_to_back("one");
    c.add_to_back("");
    assert_eq!(c.back, "one<br><br>");
    assert_eq!(c.export(), "f;one<br><br>;t\n");
    assert_eq!(Card::new("a".to_string(), "b".to_string(), "c".to_string()).export(), "a;b;c\n");
}
