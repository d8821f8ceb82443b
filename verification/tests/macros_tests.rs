use ssb_parser::error::MacroError;
use ssb_parser::maps::StrMap;
use ssb_parser::parsers::ssb_render::{expand_event_data, flatten_macros};
use ssb_parser::types::{Event, EventTrigger};
use ssb_parser::utils::flatten_macro;

fn sample_macros() -> StrMap<String> {
    let mut macros = StrMap::new();
    macros.insert("a".to_owned(), "Hello ${b} test!".to_owned());
    macros.insert("b".to_owned(), "fr${c}".to_owned());
    macros.insert("c".to_owned(), "om".to_owned());
    macros
}

fn looping_macros() -> StrMap<String> {
    let mut macros = StrMap::new();
    macros.insert("a".to_owned(), "foo ${b}".to_owned());
    macros.insert("b".to_owned(), "${a} bar".to_owned());
    macros
}

fn check_success() {
    let macros = sample_macros();
    let mut flat_macros = StrMap::new();
    flatten_macro("a", &mut Vec::new(), &macros, &mut flat_macros).unwrap();
    assert_eq!(flat_macros.get("a").unwrap(), "Hello from test!");
}

fn check_infinite() {
    let macros = looping_macros();
    assert_eq!(
        flatten_macro("a", &mut Vec::new(), &macros, &mut StrMap::new()).unwrap_err(),
        MacroError::InfiniteLoop("a".to_owned())
    );
}

fn check_notfound() {
    assert_eq!(
        flatten_macro("x", &mut Vec::new(), &StrMap::new(), &mut StrMap::new()).unwrap_err(),
        MacroError::NotFound("x".to_owned())
    );
}

#[test]
fn data_flatten_macro_success() {
    check_success();
}

#[test]
fn data_flatten_macro_infinite() {
    check_infinite();
}

#[test]
fn data_flatten_macro_notfound() {
    check_notfound();
}

#[test]
fn utils_flatten_macro_success() {
    check_success();
}

#[test]
fn utils_flatten_macro_infinite() {
    check_infinite();
}

#[test]
fn utils_flatten_macro_notfound() {
    check_notfound();
}

#[test]
fn macros_flatten_macro_success() {
    check_success();
}

#[test]
fn macros_flatten_macro_infinite() {
    check_infinite();
}

#[test]
fn macros_flatten_macro_notfound() {
    check_notfound();
}

#[test]
fn processing_flatten_macro_success() {
    check_success();
}

#[test]
fn processing_flatten_macro_infinite() {
    check_infinite();
}

#[test]
fn processing_flatten_macro_notfound() {
    check_notfound();
}

#[test]
fn compare_macro_errors() {
    assert_ne!(MacroError::InfiniteLoop("".to_owned()), MacroError::NotFound("zzz".to_owned()));
}

#[test]
fn flatten_records_sub_macros_and_history() {
    let macros = sample_macros();
    let mut history = Vec::new();
    let mut flat_macros = StrMap::new();
    flatten_macro("a", &mut history, &macros, &mut flat_macros).unwrap();
    assert_eq!(flat_macros.get("b").unwrap(), "from");
    assert_eq!(flat_macros.get("c").unwrap(), "om");
    assert_eq!(flat_macros.len(), 3);
    assert_eq!(history, vec!["a".to_owned(), "b".to_owned(), "c".to_owned()]);
}

#[test]
fn flatten_keeps_flat_macro() {
    let macros = sample_macros();
    let mut flat_macros = StrMap::new();
    flat_macros.insert("a".to_owned(), "given".to_owned());
    flatten_macro("a", &mut Vec::new(), &macros, &mut flat_macros).unwrap();
    assert_eq!(flat_macros.get("a").unwrap(), "given");
}

#[test]
fn flatten_ignores_invalid_references() {
    let mut macros = StrMap::new();
    macros.insert("a".to_owned(), "${} ${b c} $ {x} ${".to_owned());
    let mut flat_macros = StrMap::new();
    flatten_macro("a", &mut Vec::new(), &macros, &mut flat_macros).unwrap();
    assert_eq!(flat_macros.get("a").unwrap(), "${} ${b c} $ {x} ${");
}

#[test]
fn flatten_missing_sub_macro() {
    let mut macros = StrMap::new();
    macros.insert("a".to_owned(), "x ${missing} y".to_owned());
    let mut flat_macros = StrMap::new();
    assert_eq!(
        flatten_macro("a", &mut Vec::new(), &macros, &mut flat_macros).unwrap_err(),
        MacroError::NotFound("missing".to_owned())
    );
    assert_eq!(flat_macros.get("a"), None);
}

#[test]
fn flatten_all_macros() {
    let flat = flatten_macros(&sample_macros()).unwrap().unwrap();
    assert_eq!(flat.get("a").unwrap(), "Hello from test!");
    assert_eq!(flat.get("b").unwrap(), "from");
    assert_eq!(flat.get("c").unwrap(), "om");
}

#[test]
fn flatten_all_macros_error_message() {
    let err = flatten_macros(&looping_macros()).unwrap().unwrap_err();
    assert_eq!(err.to_string(), "Flattening macro 'a' caused error: InfiniteLoop(\"a\")");
    let mut macros = StrMap::new();
    macros.insert("x".to_owned(), "${y}".to_owned());
    let err = flatten_macros(&macros).unwrap().unwrap_err();
    assert_eq!(err.to_string(), "Flattening macro 'x' caused error: NotFound(\"y\")");
}

#[test]
fn macro_error_debug_text() {
    assert_eq!(MacroError::NotFound("q".to_owned()).debug_text(), format!("{:?}", MacroError::NotFound("q".to_owned())));
    assert_eq!(MacroError::InfiniteLoop("w-1".to_owned()).debug_text(), format!("{:?}", MacroError::InfiniteLoop("w-1".to_owned())));
}

fn event(macro_name: Option<&str>, data: &str) -> Event {
    Event {
        trigger: EventTrigger::Id("e".to_owned()),
        macro_name: macro_name.map(|m| m.to_owned()),
        note: None,
        data: data.to_owned(),
        data_location: (4, 9),
    }
}

#[test]
fn expand_event_with_base_and_inline_macros() {
    let flat = flatten_macros(&sample_macros()).unwrap().unwrap();
    let data = expand_event_data(&event(Some("c"), "-${b}-${a}"), &flat).unwrap().unwrap();
    assert_eq!(data, "om-from-Hello from test!");
    let data = expand_event_data(&event(None, "plain"), &flat).unwrap().unwrap();
    assert_eq!(data, "plain");
}

#[test]
fn expand_event_missing_macros() {
    let flat = flatten_macros(&sample_macros()).unwrap().unwrap();
    let err = expand_event_data(&event(Some("zz"), "x"), &flat).unwrap().unwrap_err();
    assert_eq!(err.to_string(), "Base macro 'zz' not found to insert! <4:0>");
    let err = expand_event_data(&event(None, "x${yy}"), &flat).unwrap().unwrap_err();
    assert_eq!(err.to_string(), "Inline macro 'yy' not found to insert! <4:9>");
}

#[test]
fn expand_event_reference_formed_by_insertion() {
    let mut macros = StrMap::new();
    macros.insert("p".to_owned(), "${q".to_owned());
    macros.insert("q".to_owned(), "done".to_owned());
    let flat = flatten_macros(&macros).unwrap().unwrap();
    let data = expand_event_data(&event(None, "${p}}"), &flat).unwrap().unwrap();
    assert_eq!(data, "done");
}
