use ssb_parser::state::ssb_state;
use ssb_parser::types::{Direction, FontFace, FontStyle, Numpad, TextureDataType, View, WrapStyle};
use ssb_parser::utils::state::{Mode, Section};

#[test]
fn ssb_state_convert() {
    assert_eq!(ssb_state::Section::try_from("#EVENTS"), Ok(ssb_state::Section::Events));
    assert_eq!(ssb_state::Section::try_from("#EVENT"), Err(()));
    assert_eq!(ssb_state::Mode::try_from("shape"), Ok(ssb_state::Mode::Shape));
    assert_eq!(ssb_state::Mode::try_from("lines"), Err(()));
}

#[test]
fn state_convert() {
    assert_eq!(Section::try_from("#Events"), Ok(Section::Events));
    assert_eq!(Section::try_from("#Event"), Err(()));
    assert_eq!(Mode::try_from("shape"), Ok(Mode::Shape));
    assert_eq!(Mode::try_from("lines"), Err(()));
}

#[test]
fn types_convert() {
    assert_eq!(View::try_from("orthogonal").expect("View instance expected!"), View::Orthogonal);
    assert_eq!(FontStyle::try_from("bold-italic").expect("FontStyle instance expected!"), FontStyle::BoldItalic);
    assert_eq!(Section::try_from("#Events").expect("Section instance expected!"), Section::Events);
    assert_eq!(Mode::try_from("shape").expect("Mode instance expected!"), Mode::Shape);
    assert_eq!(TextureDataType::try_from("data").expect("Texture data type expected!"), TextureDataType::Raw);
    assert_eq!(Numpad::try_from(7u8).expect("Numpad expected!"), Numpad::TopLeft);
}

#[test]
fn tags_convert() {
    assert_eq!(Numpad::try_from(7u8).expect("Numpad expected!"), Numpad::TopLeft);
    assert_eq!(WrapStyle::try_from("character").expect("Wrap style expected!"), WrapStyle::Character);
    assert_eq!(Direction::try_from("ttb").expect("Direction expected!"), Direction::TopToBottom);
}

#[test]
fn section_headers_round_trip() {
    for (header, section) in [
        ("#Info", Section::Info),
        ("#Target", Section::Target),
        ("#Macros", Section::Macros),
        ("#Events", Section::Events),
        ("#Resources", Section::Resources),
    ] {
        assert_eq!(Section::try_from(header), Ok(section));
    }
    assert_eq!(Section::try_from("#INFO"), Err(()));
    assert_eq!(ssb_state::Section::try_from("#RESOURCES"), Ok(ssb_state::Section::Resources));
}

#[test]
fn defaults_and_other_values() {
    assert_eq!(Mode::default(), Mode::Text);
    assert_eq!(Mode::try_from("points"), Ok(Mode::Points));
    assert_eq!(Numpad::try_from(0u8), Err(()));
    assert_eq!(Numpad::try_from(1u8), Ok(Numpad::BottomLeft));
    assert_eq!(View::try_from("perspective"), Ok(View::Perspective));
    assert_eq!(View::try_from("Perspective"), Err(()));
    assert_eq!(TextureDataType::try_from("url"), Ok(TextureDataType::Url));
    assert_eq!(FontStyle::try_from("bold").unwrap().debug_name(), "Bold");
    assert_eq!(Direction::try_from("up"), Err(()));
}

#[test]
fn font_face_display() {
    let face = FontFace { family: "Arial".to_owned(), style: FontStyle::BoldItalic };
    assert_eq!(face.to_string(), "Arial (BoldItalic)");
}
