use recipe_chains::template::{KeyRef, ParseError, Segment, Template};

fn lit(s: &str) -> Segment {
    Segment::Literal(s.to_string())
}

fn key(chain: &str, path: &[&str]) -> Segment {
    Segment::Key(KeyRef {
        chain: chain.to_string(),
        path: path.iter().map(|s| s.to_string()).collect(),
    })
}

#[test]
fn parse_empty_template() {
    assert_eq!(Template::parse("").unwrap().segments, vec![]);
}

#[test]
fn parse_literal_only() {
    let t = Template::parse("hello, world").unwrap();
    assert_eq!(t.segments, vec![lit("hello, world")]);
}

#[test]
fn parse_single_key() {
    let t = Template::parse("{{token}}").unwrap();
    assert_eq!(t.segments, vec![key("token", &[])]);
}

#[test]
fn parse_key_with_field_path() {
    let t = Template::parse("{{login.data.0.token}}").unwrap();
    assert_eq!(t.segments, vec![key("login", &["data", "0", "token"])]);
}

#[test]
fn parse_keeps_order_and_literals() {
    let t = Template::parse("Bearer {{auth-token}} for {{user_1}}!").unwrap();
    assert_eq!(
        t.segments,
        vec![lit("Bearer "), key("auth-token", &[]), lit(" for "), key("user_1", &[]), lit("!")]
    );
}

#[test]
fn parse_adjacent_keys() {
    let t = Template::parse("{{a}}{{b}}").unwrap();
    assert_eq!(t.segments, vec![key("a", &[]), key("b", &[])]);
}

#[test]
fn parse_single_braces_are_literal() {
    let t = Template::parse("{\"a\": {1}}x").unwrap_err();
    // the two closing braces form a stray close marker
    assert_eq!(t, ParseError::Unbalanced { position: 8 });
    let t = Template::parse("{\"a\": 1} {b}").unwrap();
    assert_eq!(t.segments, vec![lit("{\"a\": 1} {b}")]);
}

#[test]
fn parse_non_ascii_literal_counts_characters() {
    let t = Template::parse("héllo {{k}} wörld").unwrap();
    assert_eq!(t.segments, vec![lit("héllo "), key("k", &[]), lit(" wörld")]);
    assert_eq!(Template::parse("é{{"), Err(ParseError::Unterminated { position: 1 }));
}

#[test]
fn parse_unterminated_marker() {
    assert_eq!(Template::parse("abc {{key"), Err(ParseError::Unterminated { position: 4 }));
    assert_eq!(Template::parse("{{"), Err(ParseError::Unterminated { position: 0 }));
    assert_eq!(Template::parse("{{a}"), Err(ParseError::Unterminated { position: 0 }));
}

#[test]
fn parse_stray_close_marker() {
    assert_eq!(Template::parse("abc }} def"), Err(ParseError::Unbalanced { position: 4 }));
    assert_eq!(Template::parse("{{a}} }}"), Err(ParseError::Unbalanced { position: 6 }));
}

#[test]
fn parse_nested_open_marker() {
    assert_eq!(Template::parse("{{a {{b}} }}"), Err(ParseError::Unbalanced { position: 4 }));
}

#[test]
fn parse_invalid_key() {
    assert_eq!(Template::parse("x{{}}"), Err(ParseError::InvalidKey { position: 3 }));
    assert_eq!(Template::parse("{{a b}}"), Err(ParseError::InvalidKey { position: 2 }));
    assert_eq!(Template::parse("{{a..b}}"), Err(ParseError::InvalidKey { position: 2 }));
    assert_eq!(Template::parse("{{.a}}"), Err(ParseError::InvalidKey { position: 2 }));
    assert_eq!(Template::parse("{{a.}}"), Err(ParseError::InvalidKey { position: 2 }));
    assert_eq!(Template::parse("{{ a }}"), Err(ParseError::InvalidKey { position: 2 }));
    assert_eq!(Template::parse("{{é}}"), Err(ParseError::InvalidKey { position: 2 }));
}

#[test]
fn parse_first_error_wins() {
    assert_eq!(Template::parse("{{}} }} {{"), Err(ParseError::InvalidKey { position: 2 }));
    assert_eq!(Template::parse("}} {{"), Err(ParseError::Unbalanced { position: 0 }));
}

#[test]
fn parse_triple_braces() {
    // the marker ends at the first close; what is left is literal
    let t = Template::parse("{{a}}}").unwrap();
    assert_eq!(t.segments, vec![key("a", &[]), lit("}")]);
    assert_eq!(Template::parse("{{{a}}"), Err(ParseError::InvalidKey { position: 2 }));
}

#[test]
fn literal_template_is_what_parse_gives() {
    let a = Template::literal("http://localhost/url");
    let b = Template::parse("http://localhost/url").unwrap();
    assert_eq!(a, b);
}
