use ssb_parser::utils::functions::option::OptionExt;

#[test]
fn map_err_str() {
    assert_eq!(Some("123").map_or_err_str(|value| value.parse()), Ok(123));
    assert_eq!(Some("987a").map_else_err_str(|value| value.parse::<i32>().ok()), Err("987a"));
}

#[test]
fn map_err_str_none_and_success() {
    let none: Option<&str> = None;
    assert_eq!(none.map_or_err_str(|value| value.parse::<u8>()), Err(""));
    assert_eq!(none.map_else_err_str(|value| value.parse::<u8>().ok()), Err(""));
    assert_eq!(Some("x").map_or_err_str(|value| value.parse::<u8>()), Err("x"));
    assert_eq!(Some("7").map_else_err_str(|value| value.parse::<u8>().ok()), Ok(7));
}
