use ssb_parser::error::ParseError;

#[test]
fn error_display() {
    assert_eq!(ParseError::new("Oops").to_string(), "Oops");
    assert_eq!(ParseError::new_with_pos("Bad", (12, 345)).to_string(), "Bad <12:345>");
    assert_eq!(ParseError::new_with_pos("Zero", (0, 0)).to_string(), "Zero <0:0>");
}

#[test]
fn error_source() {
    let inner = ParseError::new("inner");
    let outer = ParseError::new_with_source("outer", (1, 2), inner);
    assert_eq!(outer.to_string(), "outer <1:2>\ninner");
    assert_eq!(outer.source().map(|e| e.to_string()), Some("inner".to_owned()));
    assert!(ParseError::new("x").source().is_none());
}
