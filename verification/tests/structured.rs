use wordbase::structured::{
    FontStyle, FontWeight, ImageAppearance, ImageRendering, SizeUnits, TextAlign,
    TextDecorationLine, TextDecorationStyle, VerticalAlign, WordBreak,
};

/// The kebab-case form of a PascalCase variant name, as the serialised
/// representation spells it.
fn kebab(name: &str) -> String {
    let mut out = String::new();
    for (i, c) in name.chars().enumerate() {
        if c.is_ascii_uppercase() {
            if i > 0 {
                out.push('-');
            }
            out.push(c.to_ascii_lowercase());
        } else {
            out.push(c);
        }
    }
    out
}

fn check_all<T: std::fmt::Debug + Copy>(all: Vec<T>, as_str: fn(T) -> &'static str) {
    assert!(!all.is_empty());
    for v in all {
        assert_eq!(as_str(v), kebab(&format!("{v:?}")));
    }
}

#[test]
fn enum_display_eq_serialize() {
    check_all(VerticalAlign::all(), VerticalAlign::as_str);
    check_all(TextDecorationLine::all(), TextDecorationLine::as_str);
    check_all(TextDecorationStyle::all(), TextDecorationStyle::as_str);
    check_all(FontStyle::all(), FontStyle::as_str);
    check_all(FontWeight::all(), FontWeight::as_str);
    check_all(WordBreak::all(), WordBreak::as_str);
    check_all(TextAlign::all(), TextAlign::as_str);
    check_all(SizeUnits::all(), SizeUnits::as_str);
    check_all(ImageRendering::all(), ImageRendering::as_str);
    check_all(ImageAppearance::all(), ImageAppearance::as_str);
}

#[test]
fn style_names_spot_check() {
    assert_eq!(VerticalAlign::TextTop.as_str(), "text-top");
    assert_eq!(TextDecorationLine::LineThrough.as_str(), "line-through");
    assert_eq!(WordBreak::BreakAll.as_str(), "break-all");
    assert_eq!(VerticalAlign::all().len(), 8);
}
