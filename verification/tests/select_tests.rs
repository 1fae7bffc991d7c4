use recipe_chains::collection::ContentType;
use recipe_chains::json::{check_document, scan_number, scan_string, scan_value, skip_ws, MAX_DEPTH};
use recipe_chains::select::{select, select_in_json, SelectorError};

fn path(steps: &[&str]) -> Vec<String> {
    steps.iter().map(|s| s.to_string()).collect()
}

fn sel(doc: &str, steps: &[&str]) -> Result<String, SelectorError> {
    select_in_json(doc.as_bytes(), &path(steps)).map(|v| String::from_utf8(v).unwrap())
}

#[test]
fn select_member_of_padded_document() {
    assert_eq!(sel("  {\"a\":\"x\"}  ", &["a"]), Ok("x".to_string()));
}

#[test]
fn select_whole_document() {
    assert_eq!(sel(" {\"a\": 1} ", &[]), Ok("{\"a\": 1}".to_string()));
    assert_eq!(sel("\"text\"", &[]), Ok("text".to_string()));
    assert_eq!(sel(" 12.5e3 ", &[]), Ok("12.5e3".to_string()));
}

#[test]
fn select_nested_and_indexed() {
    let doc = r#"{"data": {"items": [ {"id": 1}, {"id": 22, "tags": ["a", "b"]} ], "n": null}, "ok": true}"#;
    assert_eq!(sel(doc, &["data", "items", "1", "id"]), Ok("22".to_string()));
    assert_eq!(sel(doc, &["data", "items", "1", "tags", "1"]), Ok("b".to_string()));
    assert_eq!(sel(doc, &["data", "items", "0"]), Ok("{\"id\": 1}".to_string()));
    assert_eq!(sel(doc, &["data", "n"]), Ok("null".to_string()));
    assert_eq!(sel(doc, &["ok"]), Ok("true".to_string()));
    assert_eq!(sel(doc, &["data", "items", "01", "id"]), Ok("22".to_string()));
}

#[test]
fn select_first_of_duplicate_keys() {
    assert_eq!(sel(r#"{"a": 1, "a": 2}"#, &["a"]), Ok("1".to_string()));
}

#[test]
fn select_no_match() {
    let doc = r#"{"a": [1, 2], "b": "s"}"#;
    assert_eq!(sel(doc, &["c"]), Err(SelectorError::NoMatch));
    assert_eq!(sel(doc, &["a", "2"]), Err(SelectorError::NoMatch));
    assert_eq!(sel(doc, &["a", "x"]), Err(SelectorError::NoMatch));
    assert_eq!(sel(doc, &["a", ""]), Err(SelectorError::NoMatch));
    assert_eq!(sel(doc, &["a", "1000000000"]), Err(SelectorError::NoMatch));
    assert_eq!(sel(doc, &["b", "0"]), Err(SelectorError::NoMatch));
    assert_eq!(sel("{}", &["a"]), Err(SelectorError::NoMatch));
    assert_eq!(sel("[]", &["0"]), Err(SelectorError::NoMatch));
}

#[test]
fn select_invalid_content() {
    assert_eq!(sel("", &[]), Err(SelectorError::InvalidContent));
    assert_eq!(sel("{\"a\":}", &["a"]), Err(SelectorError::InvalidContent));
    assert_eq!(sel("{\"a\":1} x", &["a"]), Err(SelectorError::InvalidContent));
    assert_eq!(sel("[1,]", &["0"]), Err(SelectorError::InvalidContent));
    assert_eq!(sel("{\"a\":1,}", &["a"]), Err(SelectorError::InvalidContent));
    assert_eq!(sel("plain text", &[]), Err(SelectorError::InvalidContent));
    assert_eq!(sel("01", &[]), Err(SelectorError::InvalidContent));
    assert_eq!(sel("\"a\nb\"", &[]), Err(SelectorError::InvalidContent));
    assert_eq!(sel("nul", &[]), Err(SelectorError::InvalidContent));
}

#[test]
fn select_needs_content_type() {
    assert_eq!(select(b"{\"a\":1}", None, &path(&["a"])), Err(SelectorError::NoContentType));
    assert_eq!(select(b"{\"a\":1}", Some(ContentType::Json), &path(&["a"])), Ok(b"1".to_vec()));
}

#[test]
fn string_escapes_are_decoded() {
    assert_eq!(
        sel(r#"{"k": "a\"b\\c\/d\b\f\n\r\t"}"#, &["k"]),
        Ok("a\"b\\c/d\u{8}\u{c}\n\r\t".to_string())
    );
    assert_eq!(sel(r#""\u0041\u00e9\u20AC""#, &[]), Ok("Aé€".to_string()));
    assert_eq!(sel("\"é€😀\"", &[]), Ok("é€😀".to_string()));
    assert_eq!(sel(r#""\ud83d\ude00""#, &[]), Err(SelectorError::InvalidContent));
    assert_eq!(sel(r#""\x""#, &[]), Err(SelectorError::InvalidContent));
    assert_eq!(sel(r#""\u00g0""#, &[]), Err(SelectorError::InvalidContent));
}

#[test]
fn escaped_keys_are_compared_decoded() {
    assert_eq!(sel(r#"{"\u0061b": 7}"#, &["ab"]), Ok("7".to_string()));
}

#[test]
fn numbers_follow_the_grammar() {
    for ok in ["0", "-0", "10", "-1.5", "1e10", "1E+2", "0.0e-0"] {
        assert_eq!(scan_number(ok.as_bytes(), 0), Some(ok.len()), "{}", ok);
    }
    for bad in ["", "-", ".5", "1.", "1e", "1e+", "+1", "a"] {
        assert!(!check_document(bad.as_bytes()), "{}", bad);
    }
    // a number ends where the grammar ends
    assert_eq!(scan_number(b"012", 0), Some(1));
    assert_eq!(scan_number(b"1.5.2", 0), Some(3));
}

#[test]
fn scanning_primitives() {
    assert_eq!(skip_ws(b" \t\r\n x", 0), 5);
    assert_eq!(skip_ws(b"x", 0), 0);
    assert_eq!(scan_string(b"\"ab\" rest", 1), Some((b"ab".to_vec(), 4)));
    assert_eq!(scan_string(b"\"ab", 1), None);
    assert_eq!(scan_value(b"[1, [2, 3]] tail", 0, MAX_DEPTH), Some(11));
    assert_eq!(scan_value(b"true", 0, 0), Some(4));
    assert_eq!(scan_value(b"false", 0, 0), Some(5));
    assert_eq!(scan_value(b"[]", 0, 0), None);
}

#[test]
fn nesting_is_bounded() {
    let deep_ok = format!("{}{}", "[".repeat(MAX_DEPTH), "]".repeat(MAX_DEPTH));
    assert!(check_document(deep_ok.as_bytes()));
    let too_deep = format!("{}{}", "[".repeat(MAX_DEPTH + 1), "]".repeat(MAX_DEPTH + 1));
    assert!(!check_document(too_deep.as_bytes()));
    let huge = "[".repeat(100_000);
    assert!(!check_document(huge.as_bytes()));
}

#[test]
fn long_arrays_do_not_nest() {
    let mut doc = String::from("[");
    for i in 0..50_000 {
        if i > 0 {
            doc.push(',');
        }
        doc.push_str(&i.to_string());
    }
    doc.push(']');
    assert_eq!(sel(&doc, &["49999"]), Ok("49999".to_string()));
}
