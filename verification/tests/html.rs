use wordbase::format::yomitan::html::style_css;
use wordbase::structured::{Content, ContentStyle};

#[test]
fn escapes_markup() {
    let text = Content::String("a < b & \"c\" > 'd'".to_owned());
    assert_eq!(text.render(), "a &lt; b &amp; &quot;c&quot; &gt; 'd'");
}

#[test]
fn encodes_safe() {
    let style = ContentStyle { color: Some("x/y 'z' <&>\"".to_owned()), ..ContentStyle::default() };
    assert_eq!(style_css(&style), "color:x&#x2F;y &#x27;z&#x27; &lt;&amp;&gt;&quot;;");
    let style = ContentStyle { color: Some("日本語".to_owned()), ..ContentStyle::default() };
    assert_eq!(style_css(&style), "color:日本語;");
}
