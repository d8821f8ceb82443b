use ssb_parser::objects::{EventObjectData, FlagTag, NumberTag, SegmentData, SegmentKind, TextureWrapping};
use ssb_parser::parsers::geometries::parse_geometries;
use ssb_parser::parsers::ssb_render::{parse_objects, parse_objects_into};
use ssb_parser::parsers::tags::parse_tags;
use ssb_parser::types::Numpad;
use ssb_parser::utils::state::Mode;

#[test]
fn invalid_tag() {
    assert_eq!(
        parse_tags("font=Arial;dummy", &mut vec![], &mut None).map_err(|err| err.to_string()),
        Err("Invalid tag 'dummy'!".to_owned())
    );
    assert_eq!(
        parse_tags("animate=500,-500,t,[abc]", &mut vec![], &mut Some(Mode::default())).map_err(|err| err.to_string()),
        Err("Invalid animate '500,-500,t,[abc]'!\nInvalid tag 'abc'!".to_owned())
    );
}

#[test]
fn invalid_geometry() {
    assert_eq!(
        parse_geometries("0 0 -1 2.5 3", &mut vec![], Mode::Points).map_err(|err| err.to_string()),
        Err("Points incomplete (leftover: '3')!".to_owned())
    );
}

fn texts(v: &[&str]) -> Vec<String> {
    v.iter().map(|s| s.to_string()).collect()
}

#[test]
fn tags_into_objects() {
    let mut objects = vec![];
    let mut mode = Some(Mode::Text);
    parse_tags(
        "bold=y;size=20.5;position=1,2;alignment=5;alignment=1,2.7;margin=5;color=ff0000,00ff00;alpha=80;texfill=0,0,1,0.5,repeat;reset;k=260;mode=shape",
        &mut objects,
        &mut mode,
    )
    .unwrap();
    assert_eq!(mode, Some(Mode::Shape));
    assert_eq!(objects[0], EventObjectData::TagFlag(FlagTag::Bold, true));
    assert_eq!(objects[1], EventObjectData::TagNumbers { tag: NumberTag::Size, value: "20.5".to_owned(), numbers: texts(&["20.5"]) });
    assert_eq!(objects[2], EventObjectData::TagNumbers { tag: NumberTag::Position, value: "1,2".to_owned(), numbers: texts(&["1", "2", "0"]) });
    assert_eq!(objects[3], EventObjectData::TagAlignment(Numpad::MiddleCenter));
    assert_eq!(objects[4], EventObjectData::TagNumbers { tag: NumberTag::AlignmentOffset, value: "1,2.7".to_owned(), numbers: texts(&["1", "2.7"]) });
    assert_eq!(objects[5], EventObjectData::TagNumbers { tag: NumberTag::Margin, value: "5".to_owned(), numbers: texts(&["5", "5", "5", "5"]) });
    assert_eq!(objects[6], EventObjectData::TagColor(vec![[255, 0, 0], [0, 255, 0]]));
    assert_eq!(objects[7], EventObjectData::TagAlpha(vec![128]));
    assert_eq!(objects[8], EventObjectData::TagTextureFill { value: "0,0,1,0.5,repeat".to_owned(), numbers: texts(&["0", "0", "1", "0.5"]), wrap: TextureWrapping::Repeat });
    assert_eq!(objects[9], EventObjectData::TagReset);
    assert_eq!(objects[10], EventObjectData::TagKaraoke(260));
    assert_eq!(objects.len(), 11);
}

#[test]
fn tag_errors() {
    let err = |data: &str| parse_tags(data, &mut vec![], &mut Some(Mode::Text)).unwrap_err().to_string();
    assert_eq!(err("bold=x"), "Invalid bold 'x'!");
    assert_eq!(err("bold"), "Invalid bold ''!");
    assert_eq!(err("position=1"), "Invalid position '1'!");
    assert_eq!(err("alignment=10"), "Invalid alignment '10'!");
    assert_eq!(err("reset=1"), "Reset must have no value!");
    assert_eq!(err("mask-clear=1"), "Mask clear must have no value!");
    assert_eq!(err("borderalpha=zz"), "Invalid border coloalphar 'zz'!");
    assert_eq!(err("color=1,2,3,4,5,6"), "Invalid color '1,2,3,4,5,6'!");
    assert_eq!(err("mode=lines"), "Invalid mode 'lines'!");
    assert_eq!(err("animate=x"), "Invalid animate 'x'!");
    assert_eq!(err("animate=99999999999,0,[]"), "Invalid animate '99999999999,0,[]'!");
    assert_eq!(
        parse_tags("mode=shape", &mut vec![], &mut None).unwrap_err().to_string(),
        "Invalid tag 'mode'!"
    );
}

#[test]
fn animate_tags_follow_their_animation() {
    let mut objects = vec![];
    parse_tags("animate=100,-2000,t^2,[size=42;bold=n];italic=y", &mut objects, &mut Some(Mode::Text)).unwrap();
    assert_eq!(
        objects[0],
        EventObjectData::TagAnimate {
            value: "100,-2000,t^2,[size=42;bold=n]".to_owned(),
            time: Some((100, -2000)),
            formula: Some("t^2".to_owned()),
            tags: 2
        }
    );
    assert_eq!(objects[2], EventObjectData::TagFlag(FlagTag::Bold, false));
    assert_eq!(objects[3], EventObjectData::TagFlag(FlagTag::Italic, true));
    let mut empty = vec![];
    parse_tags("animate=[]", &mut empty, &mut Some(Mode::Text)).unwrap();
    assert_eq!(empty, vec![EventObjectData::TagAnimate { value: "[]".to_owned(), time: None, formula: None, tags: 0 }]);
}

#[test]
fn shapes_and_points() {
    let mut objects = vec![];
    parse_geometries("m 0 0 l 50.5 0 b 1 2 3 4 5 6 a 0 0 180 c", &mut objects, Mode::Shape).unwrap();
    assert_eq!(
        objects[0],
        EventObjectData::GeometryShape(vec![
            SegmentData { kind: SegmentKind::Move, numbers: texts(&["0", "0"]) },
            SegmentData { kind: SegmentKind::Line, numbers: texts(&["50.5", "0"]) },
            SegmentData { kind: SegmentKind::Curve, numbers: texts(&["1", "2", "3", "4", "5", "6"]) },
            SegmentData { kind: SegmentKind::Arc, numbers: texts(&["0", "0", "180"]) },
            SegmentData { kind: SegmentKind::Close, numbers: vec![] },
        ])
    );
    let mut partial = vec![];
    assert_eq!(
        parse_geometries("b 1 2 3", &mut partial, Mode::Shape).unwrap_err().to_string(),
        "Invalid Y coordinate of curve second point ''!"
    );
    assert!(partial.is_empty());
    let mut points = vec![];
    parse_geometries(" 0\t0\n100 0 ", &mut points, Mode::Points).unwrap();
    assert_eq!(points[0], EventObjectData::GeometryPoints(texts(&["0", "0", "100", "0"])));
    let mut text = vec![];
    parse_geometries("Hi there", &mut text, Mode::Text).unwrap();
    assert_eq!(text[0], EventObjectData::GeometryText("Hi there".to_owned()));
}

#[test]
fn objects_of_event_data() {
    let objects = parse_objects("[bold=y;mode=points]0 0 1 1[mode=text]Hello\\[x\\]").unwrap();
    assert_eq!(objects[0], EventObjectData::TagFlag(FlagTag::Bold, true));
    assert_eq!(objects[1], EventObjectData::GeometryPoints(texts(&["0", "0", "1", "1"])));
    assert_eq!(objects[2], EventObjectData::GeometryText("Hello[x]".to_owned()));
    assert_eq!(objects.len(), 3);
    assert_eq!(
        parse_objects("[bold=y]a[dummy]").unwrap_err().to_string(),
        "Invalid tag 'dummy'!"
    );
    let mut failing = vec![];
    assert_eq!(
        parse_objects_into("[bold=y]a[dummy]", &mut failing).unwrap_err().to_string(),
        "Invalid tag 'dummy'!"
    );
    assert_eq!(failing.len(), 2);
}

#[test]
fn failed_geometry_or_animation_adds_no_object() {
    let mut objects = vec![EventObjectData::GeometryText("kept".to_owned())];
    assert!(parse_geometries("0 0 1", &mut objects, Mode::Points).is_err());
    assert_eq!(objects.len(), 1);
    assert_eq!(
        parse_geometries("m 0 0 l 1", &mut objects, Mode::Shape).unwrap_err().to_string(),
        "Invalid Y coordinate of line ''!"
    );
    assert_eq!(objects.len(), 1);
    let mut tags = vec![];
    assert!(parse_tags("bold=y;animate=[italic=y;dummy]", &mut tags, &mut Some(Mode::Text)).is_err());
    assert_eq!(tags, vec![EventObjectData::TagFlag(FlagTag::Bold, true)]);
}
