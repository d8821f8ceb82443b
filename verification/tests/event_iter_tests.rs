use ssb_parser::utils::functions::event_iter::{EscapedText, TagsIterator};

fn check_tag_geometry_iter() {
    let text = EscapedText::new("[tag1][tag2=[inner_tag]]geometry1\\[geometry1_continue\\\\[tag3]geometry2\\n[tag4");
    let mut iter = text.iter();
    assert_eq!(iter.next(), Some((true, "tag1")));
    assert_eq!(iter.next(), Some((true, "tag2=[inner_tag]")));
    assert_eq!(iter.next(), Some((false, "geometry1[geometry1_continue\\")));
    assert_eq!(iter.next(), Some((true, "tag3")));
    assert_eq!(iter.next(), Some((false, "geometry2\n")));
    assert_eq!(iter.next(), Some((true, "tag4")));
    assert_eq!(iter.next(), None);
}

#[test]
fn utils_tag_geometry_iter() {
    check_tag_geometry_iter();
}

#[test]
fn event_iter_tag_geometry_iter() {
    check_tag_geometry_iter();
}

#[test]
fn tags_iter() {
    let mut iter = TagsIterator::new("mode=points;reset;animate=0,-500,[position=200,100.5];color=ff00ff;mask-clear");
    assert_eq!(iter.next(), Some(("mode", Some("points"))));
    assert_eq!(iter.next(), Some(("reset", None)));
    assert_eq!(iter.next(), Some(("animate", Some("0,-500,[position=200,100.5]"))));
    assert_eq!(iter.next(), Some(("color", Some("ff00ff"))));
    assert_eq!(iter.next(), Some(("mask-clear", None)));
    assert_eq!(iter.next(), None);
}

#[test]
fn geometry_only_and_empty() {
    let text = EscapedText::new("m 0 0 l 10 0");
    let mut iter = text.iter();
    assert_eq!(iter.next(), Some((false, "m 0 0 l 10 0")));
    assert_eq!(iter.next(), None);
    let empty = EscapedText::new("");
    assert_eq!(empty.iter().next(), None);
}

#[test]
fn tags_iter_empty_tokens() {
    let mut iter = TagsIterator::new("a=;b");
    assert_eq!(iter.next(), Some(("a", Some(""))));
    assert_eq!(iter.next(), Some(("b", None)));
    assert_eq!(iter.next(), None);
}

#[test]
fn chunks_are_the_same_on_every_run() {
    let text = EscapedText::new("[a]b[c]");
    let first = text.chunks();
    assert_eq!(first, vec![(true, "a"), (false, "b"), (true, "c")]);
    assert_eq!(text.chunks(), first);
    let mut iter = text.iter();
    let collected: Vec<(bool, &str)> = vec![iter.next().unwrap(), iter.next().unwrap(), iter.next().unwrap()];
    assert_eq!(collected, first);
}

#[test]
fn exhausted_iterator_stays_exhausted() {
    let text = EscapedText::new("x[");
    let mut iter = text.iter();
    assert_eq!(iter.next(), Some((false, "x")));
    assert_eq!(iter.next(), Some((true, "")));
    assert_eq!(iter.next(), None);
    assert_eq!(iter.next(), None);
    assert_eq!(text.chunks(), vec![(false, "x"), (true, "")]);
}
