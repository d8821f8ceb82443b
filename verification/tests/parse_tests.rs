use ssb_parser::parsers::ssb::Ssb;
use ssb_parser::types::{EventTrigger, FontFace, FontStyle, TextureDataVariant, View};
use ssb_parser::utils::state::Section;

const SIMPLE: &str = "
#Info
Author: Youka

#Target
Width: 123

#Macros
foo: bar

#Events
0-1::.|foo|I'm a note!|[color=123abc]Hello world!

#Resources
Font: bar,bold,dXNhZ2k=
Texture: Fancy,data,RmFuY3k=
";

fn check_simple(ssb: &Ssb) {
    assert_eq!(ssb.info_title, None);
    assert_eq!(ssb.info_author, Some("Youka".to_owned()));
    assert_eq!(ssb.target_width, Some(123));
    assert_eq!(ssb.target_height, None);
    assert_eq!(ssb.macros.get("foo"), Some(&"bar".to_owned()));
    assert_eq!(ssb.macros.get("abc"), None);
    let event = ssb.events.get(0).expect("One event expected!");
    assert_eq!(event.trigger, EventTrigger::Time((0, 3600000)));
    assert_eq!(event.data, "[color=123abc]Hello world!");
    assert_eq!(ssb.fonts.get(&FontFace {family: "bar".to_owned(), style: FontStyle::Bold}), Some(&vec![117, 115, 97, 103, 105]));
    assert_eq!(ssb.fonts.get(&FontFace {family: "".to_owned(), style: FontStyle::Regular}), None);
    assert_eq!(ssb.textures.get("Fancy"), Some(&TextureDataVariant::Raw(vec![70, 97, 110, 99, 121])));
    assert_eq!(ssb.textures.get("Nobody"), None);
}

#[test]
fn parse_tests_test_ssb_simple() {
    let ssb = Ssb::default().parse_owned(SIMPLE).unwrap();
    check_simple(&ssb);
}

#[test]
fn grammar_tests_test_ssb_simple() {
    let ssb = Ssb::default().parse_owned(SIMPLE).unwrap();
    check_simple(&ssb);
}

#[test]
fn test_ssb_errors() {
    // Section
    assert_eq!(
        Ssb::default().parse("x").map_err(|err| err.to_string()),
        Err("No section set! <0:0>".to_owned())
    );
    // Info
    assert_eq!(
        Ssb::default().parse("#Info\nINVALID_ENTRY").map_err(|err| err.to_string()),
        Err("Invalid info entry! <1:0>".to_owned())
    );
    // Target
    assert_eq!(
        Ssb::default().parse("#Target\nWidth: 4096\nINVALID_ENTRY").map_err(|err| err.to_string()),
        Err("Invalid target entry! <2:0>".to_owned())
    );
    // Macros
    assert_eq!(
        Ssb::default().parse("#Macros\nabc: []\n123: Hi!\nINVALID_ENTRY").map_err(|err| err.to_string()),
        Err("Invalid macros entry! <3:0>".to_owned())
    );
    // Events
    assert_eq!(
        Ssb::default().parse("#Events\nINVALID_ENTRY").map_err(|err| err.to_string()),
        Err("Invalid events entry! <1:0>".to_owned())
    );
    assert_eq!(
        Ssb::default().parse("#Events\n1:-0|||").map_err(|err| err.to_string()),
        Err("Start time greater than end time! <1:0>".to_owned())
    );
    assert_eq!(
        Ssb::default().parse("#Events\n?|||").map_err(|err| err.to_string()),
        Err("Invalid trigger format! <1:0>".to_owned())
    );
    // Resources
    assert_eq!(
        Ssb::default().parse("#Resources\nINVALID_ENTRY").map_err(|err| err.to_string()),
        Err("Invalid resources entry! <1:0>".to_owned())
    );
    assert_eq!(
        Ssb::default().parse("#Resources\nFont: myfont,Regula").map_err(|err| err.to_string()),
        Err("Font family, style and data expected! <1:6>".to_owned())
    );
    assert_eq!(
        Ssb::default().parse("#Resources\nTexture: ").map_err(|err| err.to_string()),
        Err("Texture id, data type and data expected! <1:9>".to_owned())
    );
    assert_eq!(
        Ssb::default().parse("#Resources\nTexture: Pikachu,data,INVALID_BASE64").map_err(|err| err.to_string()),
        Err("Texture data not in base64 format! <1:22>".to_owned())
    );
}

fn error_of(script: &str) -> String {
    Ssb::default().parse(script).unwrap_err().to_string()
}

#[test]
fn parse_value_errors() {
    assert_eq!(error_of("#Target\nWidth: 65536"), "Invalid target width value! <1:7>");
    assert_eq!(error_of("#Target\nHeight: -1"), "Invalid target height value! <1:8>");
    assert_eq!(error_of("#Target\nDepth: "), "Invalid target depth value! <1:7>");
    assert_eq!(error_of("#Target\nView: flat"), "Invalid target view value! <1:6>");
    assert_eq!(error_of("#Events\nx-0|||"), "Start timestamp invalid! <1:0>");
    assert_eq!(error_of("#Events\n0-x|||"), "End timestamp invalid! <1:2>");
    assert_eq!(error_of("#Resources\nFont: f,heavy,AAAA"), "Font style invalid! <1:8>");
    assert_eq!(error_of("#Resources\nFont: f,bold,!!"), "Font data not in base64 format! <1:13>");
    assert_eq!(error_of("#Resources\nTexture: t,file,x"), "Texture data type invalid! <1:11>");
    assert_eq!(error_of("#Info\n: x"), "Invalid info entry! <1:0>");
}

#[test]
fn parse_target_values() {
    let ssb = Ssb::default()
        .parse_owned("#Target\nWidth: +0042\nHeight: 65535\nDepth: 7\nView: orthogonal")
        .unwrap();
    assert_eq!(ssb.target_width, Some(42));
    assert_eq!(ssb.target_height, Some(65535));
    assert_eq!(ssb.target_depth, 7);
    assert_eq!(ssb.target_view, View::Orthogonal);
}

#[test]
fn parse_defaults() {
    let ssb = Ssb::default();
    assert_eq!(ssb.target_depth, 1000);
    assert_eq!(ssb.target_view, View::Perspective);
    assert_eq!(ssb.events.len(), 0);
    let ssb = Ssb::default().parse_owned("").unwrap();
    assert_eq!(ssb.target_depth, 1000);
}

#[test]
fn parse_info_entries() {
    let ssb = Ssb::default()
        .parse_owned("#Info\nTitle: T\nDescription: D: x\nVersion: 1\nkey: a: b\r\n// comment\r\n\r\n")
        .unwrap();
    assert_eq!(ssb.info_title, Some("T".to_owned()));
    assert_eq!(ssb.info_description, Some("D: x".to_owned()));
    assert_eq!(ssb.info_version, Some("1".to_owned()));
    assert_eq!(ssb.info_custom.get("key"), Some(&"a: b".to_owned()));
}

#[test]
fn parse_events_fields() {
    let ssb = Ssb::default()
        .parse_owned("#Events\n'intro'|||data|with|bars\n1.5-2.|m|n|ä")
        .unwrap();
    let first = &ssb.events[0];
    assert_eq!(first.trigger, EventTrigger::Id("intro".to_owned()));
    assert_eq!(first.macro_name, None);
    assert_eq!(first.note, None);
    assert_eq!(first.data, "data|with|bars");
    assert_eq!(first.data_location, (1, 10));
    let second = &ssb.events[1];
    assert_eq!(second.trigger, EventTrigger::Time((1_005, 2_000)));
    assert_eq!(second.macro_name, Some("m".to_owned()));
    assert_eq!(second.note, Some("n".to_owned()));
    assert_eq!(second.data_location, (2, 11));
    let ssb = Ssb::default().parse_owned("#Events\n0-1|é|ü|x").unwrap();
    assert_eq!(ssb.events[0].data_location, (1, 10));
}

#[test]
fn parse_resources_entries() {
    let ssb = Ssb::default()
        .parse_owned("#Resources\nTexture: web,url,http://x/y.png\nFont: f,italic,\nFont: f,italic,QQ==")
        .unwrap();
    assert_eq!(ssb.textures.get("web"), Some(&TextureDataVariant::Url("http://x/y.png".to_owned())));
    assert_eq!(ssb.fonts.get(&FontFace {family: "f".to_owned(), style: FontStyle::Italic}), Some(&vec![65]));
    assert_eq!(ssb.fonts.len(), 1);
}

#[test]
fn parse_keeps_earlier_data_on_error() {
    let mut ssb = Ssb::default();
    assert!(ssb.parse("#Events\n0-1|||a\n#Target\nWidth: x").is_err());
    assert_eq!(ssb.events.len(), 1);
    assert_eq!(ssb.target_width, None);
    // A new script starts without section.
    assert_eq!(ssb.parse("0-1|||b").unwrap_err().to_string(), "No section set! <0:0>");
    assert!(ssb.parse("#Events\n2-3|||b").is_ok());
    assert_eq!(ssb.events.len(), 2);
    assert_eq!(ssb.events[1].data, "b");
}

#[test]
fn parse_line_by_line() {
    let mut ssb = Ssb::default();
    let mut section = None;
    assert!(ssb.parse_line(&mut section, 0, "#Macros").is_ok());
    assert_eq!(section, Some(Section::Macros));
    assert!(ssb.parse_line(&mut section, 1, "x: 1\r").is_ok());
    assert_eq!(ssb.macros.get("x"), Some(&"1".to_owned()));
    assert_eq!(ssb.parse_line(&mut section, 2, "y").unwrap_err().to_string(), "Invalid macros entry! <2:0>");
}

#[test]
fn add_resources_from_decoded_data() {
    let mut ssb = Ssb::default();
    let face = FontFace {family: "a".to_owned(), style: FontStyle::Regular};
    assert!(ssb.add_font(face.clone(), Some(vec![1, 2]), 0, 0).is_ok());
    assert_eq!(ssb.fonts.get(&face), Some(&vec![1, 2]));
    assert_eq!(ssb.add_font(face, None, 3, 17).unwrap_err().to_string(), "Font data not in base64 format! <3:17>");
    assert!(ssb.add_texture_data("t".to_owned(), Some(vec![9]), 0, 0).is_ok());
    assert_eq!(ssb.textures.get("t"), Some(&TextureDataVariant::Raw(vec![9])));
    assert_eq!(ssb.add_texture_data("u".to_owned(), None, 1, 2).unwrap_err().to_string(), "Texture data not in base64 format! <1:2>");
}

#[test]
fn cloned_data_is_equal() {
    let ssb = Ssb::default().parse_owned(SIMPLE).unwrap();
    let copy = ssb.clone();
    check_simple(&copy);
    assert_eq!(copy.events, ssb.events);
}

#[test]
fn chained_owned_parses_accumulate() {
    let ssb = Ssb::default()
        .parse_owned("#Events\n0-1|||a")
        .unwrap()
        .parse_owned("#Events\n2-3|||b")
        .unwrap();
    assert_eq!(ssb.events.len(), 2);
    assert_eq!(ssb.events[0].data, "a");
    assert_eq!(ssb.events[1].data, "b");
    let mut by_reference = Ssb::default();
    assert!(by_reference.parse("#Events\n0-1|||a").is_ok());
    assert!(by_reference.parse("#Events\n2-3|||b").is_ok());
    assert_eq!(by_reference.events, ssb.events);
    assert_eq!(
        Ssb::default().parse_owned("#Events\n5-1|||a").unwrap_err().to_string(),
        by_reference.parse("#Events\n5-1|||a").unwrap_err().to_string()
    );
}
