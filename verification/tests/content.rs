use wordbase::content::{Content, Element};

fn text(c: &Content) -> &str {
    match c {
        Content::Text(t) => t.get(),
        other => panic!("not text: {other:?}"),
    }
}

#[test]
fn one_line_loses_its_newline() {
    assert_eq!(text(&Content::from_string("abc\n".to_owned())), "abc");
    assert_eq!(text(&Content::from_string("abc\r\n".to_owned())), "abc");
    assert_eq!(text(&Content::from_string("abc".to_owned())), "abc");
    assert_eq!(text(&Content::from_string(String::new())), "");
}

#[test]
fn lines_alternate_with_breaks() {
    match Content::from_string("a\r\nb\nc\n".to_owned()) {
        Content::List(items) => {
            assert_eq!(items.len(), 5);
            assert_eq!(text(&items[0]), "a");
            assert!(matches!(&items[1], Content::Element(e) if matches!(**e, Element::LineBreak(_))));
            assert_eq!(text(&items[2]), "b");
            assert_eq!(text(&items[4]), "c");
        }
        other => panic!("not a list: {other:?}"),
    }
}
