use wordbase::format::yomitan::html::{render_content, style_css, write_style_css};
use wordbase::structured::{
    Content, ContentStyle, Element, FontWeight, ImageElement, ImageElementBase,
    LineBreakElement, LinkElement, NumberOrString, StyledElement, TableElement,
    UnstyledElement,
};

#[test]
fn style_to_css() {
    let style = ContentStyle {
        font_weight: Some(FontWeight::Bold),
        color: Some("red".to_owned()),
        margin_top: Some(NumberOrString::Number("0.5".to_owned())),
        font_size: Some("a/b".to_owned()),
        ..ContentStyle::default()
    };
    assert_eq!(
        style_css(&style),
        "font-weight:bold;font-size:a&#x2F;b;color:red;margin-top:0.5;"
    );
    assert_eq!(style_css(&ContentStyle::default()), "");
    let mut out = String::from("x");
    write_style_css(&mut out, &style);
    assert_eq!(out, "xfont-weight:bold;font-size:a&#x2F;b;color:red;margin-top:0.5;");
}

#[test]
fn text_is_escaped() {
    assert_eq!(Content::String("a<b & c".to_owned()).render(), "a&lt;b &amp; c");
}

#[test]
fn nested_elements() {
    let span = Element::Span(StyledElement {
        content: Some(Content::String("hi".to_owned())),
        style: Some(ContentStyle { color: Some("blue".to_owned()), ..ContentStyle::default() }),
        title: Some("t\"".to_owned()),
        open: Some(true),
        ..StyledElement::default()
    });
    let ruby = Element::Ruby(UnstyledElement {
        content: Some(Content::Content(vec![
            Content::String("漢".to_owned()),
            Content::Element(Box::new(Element::Rt(UnstyledElement {
                content: Some(Content::String("かん".to_owned())),
                data: None,
                lang: Some("ja".to_owned()),
            }))),
        ])),
        data: None,
        lang: None,
    });
    let content = Content::Content(vec![
        Content::Element(Box::new(span)),
        Content::Element(Box::new(Element::Br(LineBreakElement::default()))),
        Content::Element(Box::new(ruby)),
    ]);
    assert_eq!(
        content.render(),
        "<span style=\"color:blue;\" title=\"t&quot;\" open=\"true\">hi</span><br>\
         <ruby>漢<rt lang=\"ja\">かん</rt></ruby>"
    );
    let mut out = String::from("<div>");
    render_content(&content, &mut out);
    assert!(out.starts_with("<div><span"));
}

#[test]
fn table_cells_links_and_images() {
    let td = Element::Td(TableElement {
        content: None,
        col_span: Some(2),
        row_span: Some(-1),
        ..TableElement::default()
    });
    assert_eq!(td.render(), "<td col-span=\"2\" row_span=\"-1\"></td>");
    let a = Element::A(LinkElement {
        content: Some(Content::String("see".to_owned())),
        href: "?q=<x>".to_owned(),
        lang: None,
    });
    assert_eq!(a.render(), "<a href=\"?q=&lt;x&gt;\">see</a>");
    let img = Element::Img(ImageElement {
        base: ImageElementBase {
            path: "img/a.png".to_owned(),
            alt: Some("A".to_owned()),
            pixelated: Some(false),
            ..ImageElementBase::default()
        },
        ..ImageElement::default()
    });
    assert_eq!(img.render(), "<img path=\"img/a.png\" alt=\"A\" pixelated=\"false\">");
}
