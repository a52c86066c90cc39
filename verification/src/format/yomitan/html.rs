//! HTML rendering of structured glossary content: each element becomes the
//! tag of the same name with its attributes, text is escaped, and a style
//! becomes inline CSS.

use vstd::prelude::*;

use crate::html::{encode_safe, encode_safe_of, escape_html, push_escaped};
use crate::num::{decimal_i, push_decimal_i64};
use crate::structured::{
    Content, ContentStyle, Element, ImageElement, Keyword, LinkElement, NumberOrString,
    StyledElement, TableElement, UnstyledElement,
};
use crate::deconjugate::has_suffix;
use crate::import::yomitan::has_prefix;
use crate::text::push_str;

verus! {

/// The characters of an optional string.
pub open spec fn ostr(o: Option<String>) -> Option<Seq<char>> {
    match o {
        Some(s) => Some(s@),
        None => None,
    }
}

/// The keyword of an optional style value.
pub open spec fn okw<T: Keyword>(o: Option<T>) -> Option<Seq<char>> {
    match o {
        Some(v) => Some(v.keyword()),
        None => None,
    }
}

/// The text of a number-or-string value.
pub open spec fn nos_text(v: NumberOrString) -> Seq<char> {
    match v {
        NumberOrString::Number(s) => s@,
        NumberOrString::String(s) => s@,
    }
}

/// The text of an optional number-or-string value.
pub open spec fn onos(o: Option<NumberOrString>) -> Option<Seq<char>> {
    match o {
        Some(v) => Some(nos_text(v)),
        None => None,
    }
}

/// The text `bool` values are displayed as.
pub open spec fn bool_text(b: bool) -> Seq<char> {
    if b {
        "true"@
    } else {
        "false"@
    }
}

/// The text of an optional `bool`.
pub open spec fn obool(o: Option<bool>) -> Option<Seq<char>> {
    match o {
        Some(b) => Some(bool_text(b)),
        None => None,
    }
}

/// One CSS declaration `prop:value;` with the value HTML-encoded, or nothing
/// when there is no value.
pub open spec fn decl(prop: Seq<char>, value: Option<Seq<char>>) -> Seq<char> {
    match value {
        Some(v) => prop + ":"@ + encode_safe_of(v) + ";"@,
        None => Seq::empty(),
    }
}

/// The inline CSS of a style: a declaration for each property that is set,
/// in a fixed order. Text decoration lines are not written.
pub open spec fn css_of(s: ContentStyle) -> Seq<char> {
    decl("font-style"@, okw(s.font_style))
    + decl("font-weight"@, okw(s.font_weight))
    + decl("font-size"@, ostr(s.font_size))
    + decl("color"@, ostr(s.color))
    + decl("background"@, ostr(s.background))
    + decl("background-color"@, ostr(s.background_color))
    + decl("text-decoration-style"@, okw(s.text_decoration_style))
    + decl("text-decoration-color"@, ostr(s.text_decoration_color))
    + decl("border-color"@, ostr(s.border_color))
    + decl("border-style"@, ostr(s.border_style))
    + decl("border-radius"@, ostr(s.border_radius))
    + decl("border-width"@, ostr(s.border_width))
    + decl("clip-path"@, ostr(s.clip_path))
    + decl("vertical-align"@, okw(s.vertical_align))
    + decl("text-align"@, okw(s.text_align))
    + decl("text-emphasis"@, ostr(s.text_emphasis))
    + decl("text-shadow"@, ostr(s.text_shadow))
    + decl("margin"@, ostr(s.margin))
    + decl("margin-top"@, onos(s.margin_top))
    + decl("margin-left"@, onos(s.margin_left))
    + decl("margin-right"@, onos(s.margin_right))
    + decl("margin-bottom"@, onos(s.margin_bottom))
    + decl("padding"@, ostr(s.padding))
    + decl("padding-top"@, ostr(s.padding_top))
    + decl("padding-left"@, ostr(s.padding_left))
    + decl("padding-right"@, ostr(s.padding_right))
    + decl("padding-bottom"@, ostr(s.padding_bottom))
    + decl("word-break"@, okw(s.word_break))
    + decl("white-space"@, ostr(s.white_space))
    + decl("cursor"@, ostr(s.cursor))
    + decl("list-style-type"@, ostr(s.list_style_type))
}

/// The inline CSS of an optional style.
pub open spec fn ocss(o: Option<ContentStyle>) -> Option<Seq<char>> {
    match o {
        Some(s) => Some(css_of(s)),
        None => None,
    }
}

/// An attribute ` name="value"`, the value escaped.
pub open spec fn attr(name: Seq<char>, value: Seq<char>) -> Seq<char> {
    " "@ + name + "=\""@ + escape_html(value) + "\""@
}

/// An attribute when there is a value, and nothing otherwise.
pub open spec fn opt_attr(name: Seq<char>, value: Option<Seq<char>>) -> Seq<char> {
    match value {
        Some(v) => attr(name, v),
        None => Seq::empty(),
    }
}

/// An integer attribute, written in decimal, when there is a value.
pub open spec fn int_attr(name: Seq<char>, value: Option<i64>) -> Seq<char> {
    match value {
        Some(n) => " "@ + name + "=\""@ + decimal_i(n as int) + "\""@,
        None => Seq::empty(),
    }
}

/// An element with a start tag, a body, and an end tag.
pub open spec fn wrap(tag: Seq<char>, attrs: Seq<char>, body: Seq<char>) -> Seq<char> {
    "<"@ + tag + attrs + ">"@ + body + "</"@ + tag + ">"@
}

/// The HTML of structured content.
pub open spec fn content_html(c: Content) -> Seq<char>
    decreases c,
{
    match c {
        Content::String(s) => escape_html(s@),
        Content::Element(e) => element_html(*e),
        Content::Content(cs) => contents_html(cs@),
    }
}

/// The HTML of a list of content, one after the other.
pub open spec fn contents_html(cs: Seq<Content>) -> Seq<char>
    decreases cs,
{
    if cs.len() == 0 {
        Seq::empty()
    } else {
        contents_html(cs.subrange(0, cs.len() - 1)) + content_html(cs[cs.len() - 1])
    }
}

/// The HTML of an element's optional body.
pub open spec fn body_html(c: Option<Content>) -> Seq<char>
    decreases c,
{
    match c {
        Some(x) => content_html(x),
        None => Seq::empty(),
    }
}

/// An element without style: only its language is written.
pub open spec fn unstyled_html(tag: Seq<char>, u: UnstyledElement) -> Seq<char>
    decreases u,
{
    wrap(tag, opt_attr("lang"@, ostr(u.lang)), body_html(u.content))
}

/// A table cell: style, spans and language.
pub open spec fn table_html(tag: Seq<char>, t: TableElement) -> Seq<char>
    decreases t,
{
    wrap(
        tag,
        opt_attr("style"@, ocss(t.style)) + int_attr("col-span"@, t.col_span) + int_attr(
            "row_span"@,
            t.row_span,
        ) + opt_attr("lang"@, ostr(t.lang)),
        body_html(t.content),
    )
}

/// A styled element: style, title, open state and language.
pub open spec fn styled_html(tag: Seq<char>, s: StyledElement) -> Seq<char>
    decreases s,
{
    wrap(
        tag,
        opt_attr("style"@, ocss(s.style)) + opt_attr("title"@, ostr(s.title)) + opt_attr(
            "open"@,
            obool(s.open),
        ) + opt_attr("lang"@, ostr(s.lang)),
        body_html(s.content),
    )
}

/// The attributes of an image, after its path.
pub open spec fn img_attrs(i: ImageElement) -> Seq<char> {
    opt_attr("width"@, ostr(i.base.width))
    + opt_attr("height"@, ostr(i.base.height))
    + opt_attr("preferred-width"@, ostr(i.base.preferred_width))
    + opt_attr("preferred-height"@, ostr(i.base.preferred_height))
    + opt_attr("title"@, ostr(i.base.title))
    + opt_attr("alt"@, ostr(i.base.alt))
    + opt_attr("description"@, ostr(i.base.description))
    + opt_attr("pixelated"@, obool(i.base.pixelated))
    + opt_attr("image-rendering"@, okw(i.base.image_rendering))
    + opt_attr("image-appearance"@, okw(i.base.image_appearance))
    + opt_attr("background"@, obool(i.base.background))
    + opt_attr("collapsed"@, obool(i.base.collapsed))
    + opt_attr("collapsible"@, obool(i.base.collapsible))
    + opt_attr("vertical-align"@, okw(i.vertical_align))
    + opt_attr("border"@, ostr(i.border))
    + opt_attr("border-radius"@, ostr(i.border_radius))
    + opt_attr("size-units"@, okw(i.size_units))
}

/// An image: a void `img` element with its path and attributes.
pub open spec fn img_html(i: ImageElement) -> Seq<char> {
    "<img"@ + attr("path"@, i.base.path@) + img_attrs(i) + ">"@
}

/// A link to its `href`, with its language.
pub open spec fn link_html(a: LinkElement) -> Seq<char>
    decreases a,
{
    wrap("a"@, attr("href"@, a.href@) + opt_attr("lang"@, ostr(a.lang)), body_html(a.content))
}

/// The HTML of an element.
pub open spec fn element_html(e: Element) -> Seq<char>
    decreases e,
{
    match e {
        Element::Br(_) => "<br>"@,
        Element::Ruby(u) => unstyled_html("ruby"@, u),
        Element::Rt(u) => unstyled_html("rt"@, u),
        Element::Rp(u) => unstyled_html("rp"@, u),
        Element::Table(u) => unstyled_html("table"@, u),
        Element::Thead(u) => unstyled_html("thead"@, u),
        Element::Tbody(u) => unstyled_html("tbody"@, u),
        Element::Tfoot(u) => unstyled_html("tfoot"@, u),
        Element::Tr(u) => unstyled_html("tr"@, u),
        Element::Td(t) => table_html("td"@, t),
        Element::Th(t) => table_html("th"@, t),
        Element::Span(s) => styled_html("span"@, s),
        Element::Div(s) => styled_html("div"@, s),
        Element::Ol(s) => styled_html("ol"@, s),
        Element::Ul(s) => styled_html("ul"@, s),
        Element::Li(s) => styled_html("li"@, s),
        Element::Details(s) => styled_html("details"@, s),
        Element::Summary(s) => styled_html("summary"@, s),
        Element::Img(i) => img_html(i),
        Element::A(a) => link_html(a),
    }
}

/// A tag as it opens an element, and as it closes one.
proof fn lemma_wrap_tag(tag: Seq<char>, attrs: Seq<char>, body: Seq<char>)
    ensures
        has_prefix(wrap(tag, attrs, body), "<"@ + tag),
        has_suffix(wrap(tag, attrs, body), "</"@ + tag + ">"@),
{
    let w = wrap(tag, attrs, body);
    let p = "<"@ + tag;
    let q = "</"@ + tag + ">"@;
    assert(w =~= p + (attrs + ">"@ + body) + q);
    assert(w.take(p.len() as int) =~= p);
    assert(w.skip(w.len() - q.len()) =~= q);
}

/// Each element is written as the HTML element of the same name: a line
/// break as `<br>`, an image as a void `<img ...>`, and every other element
/// between its start tag `<name ...>` and its end tag `</name>`, with `name`
/// the lowercase name of its kind (`ol` for an ordered list, `ul` for an
/// unordered one, `rt` for ruby text, and so on).
#[verifier::spinoff_prover]
#[verifier::rlimit(60)]
pub proof fn lemma_element_tag(e: Element)
    ensures
        e matches Element::Br(_) ==> element_html(e) == "<br>"@,
        e matches Element::Ruby(_) ==> has_prefix(element_html(e), "<ruby"@) && has_suffix(element_html(e), "</ruby>"@),
        e matches Element::Rt(_) ==> has_prefix(element_html(e), "<rt"@) && has_suffix(element_html(e), "</rt>"@),
        e matches Element::Rp(_) ==> has_prefix(element_html(e), "<rp"@) && has_suffix(element_html(e), "</rp>"@),
        e matches Element::Table(_) ==> has_prefix(element_html(e), "<table"@) && has_suffix(element_html(e), "</table>"@),
        e matches Element::Thead(_) ==> has_prefix(element_html(e), "<thead"@) && has_suffix(element_html(e), "</thead>"@),
        e matches Element::Tbody(_) ==> has_prefix(element_html(e), "<tbody"@) && has_suffix(element_html(e), "</tbody>"@),
        e matches Element::Tfoot(_) ==> has_prefix(element_html(e), "<tfoot"@) && has_suffix(element_html(e), "</tfoot>"@),
        e matches Element::Tr(_) ==> has_prefix(element_html(e), "<tr"@) && has_suffix(element_html(e), "</tr>"@),
        e matches Element::Td(_) ==> has_prefix(element_html(e), "<td"@) && has_suffix(element_html(e), "</td>"@),
        e matches Element::Th(_) ==> has_prefix(element_html(e), "<th"@) && has_suffix(element_html(e), "</th>"@),
        e matches Element::Span(_) ==> has_prefix(element_html(e), "<span"@) && has_suffix(element_html(e), "</span>"@),
        e matches Element::Div(_) ==> has_prefix(element_html(e), "<div"@) && has_suffix(element_html(e), "</div>"@),
        e matches Element::Ol(_) ==> has_prefix(element_html(e), "<ol"@) && has_suffix(element_html(e), "</ol>"@),
        e matches Element::Ul(_) ==> has_prefix(element_html(e), "<ul"@) && has_suffix(element_html(e), "</ul>"@),
        e matches Element::Li(_) ==> has_prefix(element_html(e), "<li"@) && has_suffix(element_html(e), "</li>"@),
        e matches Element::Details(_) ==> has_prefix(element_html(e), "<details"@) && has_suffix(element_html(e), "</details>"@),
        e matches Element::Summary(_) ==> has_prefix(element_html(e), "<summary"@) && has_suffix(element_html(e), "</summary>"@),
        e matches Element::A(_) ==> has_prefix(element_html(e), "<a"@) && has_suffix(element_html(e), "</a>"@),
        e matches Element::Img(_) ==> has_prefix(element_html(e), "<img"@) && has_suffix(element_html(e), ">"@),
{
    match e {
        Element::Br(_) => {},
        Element::Ruby(x) => lemma_tag_ruby(x),
        Element::Rt(x) => lemma_tag_rt(x),
        Element::Rp(x) => lemma_tag_rp(x),
        Element::Table(x) => lemma_tag_table(x),
        Element::Thead(x) => lemma_tag_thead(x),
        Element::Tbody(x) => lemma_tag_tbody(x),
        Element::Tfoot(x) => lemma_tag_tfoot(x),
        Element::Tr(x) => lemma_tag_tr(x),
        Element::Td(x) => lemma_tag_td(x),
        Element::Th(x) => lemma_tag_th(x),
        Element::Span(x) => lemma_tag_span(x),
        Element::Div(x) => lemma_tag_div(x),
        Element::Ol(x) => lemma_tag_ol(x),
        Element::Ul(x) => lemma_tag_ul(x),
        Element::Li(x) => lemma_tag_li(x),
        Element::Details(x) => lemma_tag_details(x),
        Element::Summary(x) => lemma_tag_summary(x),
        Element::A(x) => lemma_tag_a(x),
        Element::Img(i) => {
            reveal_strlit("<img");
            reveal_strlit(">");
            let h = img_html(i);
            assert(h.take(4) =~= "<img"@);
            assert(h.skip(h.len() - 1) =~= ">"@);
        },
    }
}

#[verifier::spinoff_prover]
#[verifier::rlimit(40)]
proof fn lemma_tag_ruby(x: UnstyledElement)
    ensures
        has_prefix(element_html(Element::Ruby(x)), "<ruby"@),
        has_suffix(element_html(Element::Ruby(x)), "</ruby>"@),
{
    reveal_strlit("<");
    reveal_strlit("</");
    reveal_strlit(">");
    reveal_strlit("ruby");
    reveal_strlit("<ruby");
    reveal_strlit("</ruby>");
    lemma_wrap_tag("ruby"@, opt_attr("lang"@, ostr(x.lang)), body_html(x.content));
    assert("<"@ + "ruby"@ =~= "<ruby"@);
    assert("</"@ + "ruby"@ + ">"@ =~= "</ruby>"@);
}

#[verifier::spinoff_prover]
#[verifier::rlimit(40)]
proof fn lemma_tag_rt(x: UnstyledElement)
    ensures
        has_prefix(element_html(Element::Rt(x)), "<rt"@),
        has_suffix(element_html(Element::Rt(x)), "</rt>"@),
{
    reveal_strlit("<");
    reveal_strlit("</");
    reveal_strlit(">");
    reveal_strlit("rt");
    reveal_strlit("<rt");
    reveal_strlit("</rt>");
    lemma_wrap_tag("rt"@, opt_attr("lang"@, ostr(x.lang)), body_html(x.content));
    assert("<"@ + "rt"@ =~= "<rt"@);
    assert("</"@ + "rt"@ + ">"@ =~= "</rt>"@);
}

#[verifier::spinoff_prover]
#[verifier::rlimit(40)]
proof fn lemma_tag_rp(x: UnstyledElement)
    ensures
        has_prefix(element_html(Element::Rp(x)), "<rp"@),
        has_suffix(element_html(Element::Rp(x)), "</rp>"@),
{
    reveal_strlit("<");
    reveal_strlit("</");
    reveal_strlit(">");
    reveal_strlit("rp");
    reveal_strlit("<rp");
    reveal_strlit("</rp>");
    lemma_wrap_tag("rp"@, opt_attr("lang"@, ostr(x.lang)), body_html(x.content));
    assert("<"@ + "rp"@ =~= "<rp"@);
    assert("</"@ + "rp"@ + ">"@ =~= "</rp>"@);
}

#[verifier::spinoff_prover]
#[verifier::rlimit(40)]
proof fn lemma_tag_table(x: UnstyledElement)
    ensures
        has_prefix(element_html(Element::Table(x)), "<table"@),
        has_suffix(element_html(Element::Table(x)), "</table>"@),
{
    reveal_strlit("<");
    reveal_strlit("</");
    reveal_strlit(">");
    reveal_strlit("table");
    reveal_strlit("<table");
    reveal_strlit("</table>");
    lemma_wrap_tag("table"@, opt_attr("lang"@, ostr(x.lang)), body_html(x.content));
    assert("<"@ + "table"@ =~= "<table"@);
    assert("</"@ + "table"@ + ">"@ =~= "</table>"@);
}

#[verifier::spinoff_prover]
#[verifier::rlimit(40)]
proof fn lemma_tag_thead(x: UnstyledElement)
    ensures
        has_prefix(element_html(Element::Thead(x)), "<thead"@),
        has_suffix(element_html(Element::Thead(x)), "</thead>"@),
{
    reveal_strlit("<");
    reveal_strlit("</");
    reveal_strlit(">");
    reveal_strlit("thead");
    reveal_strlit("<thead");
    reveal_strlit("</thead>");
    lemma_wrap_tag("thead"@, opt_attr("lang"@, ostr(x.lang)), body_html(x.content));
    assert("<"@ + "thead"@ =~= "<thead"@);
    assert("</"@ + "thead"@ + ">"@ =~= "</thead>"@);
}

#[verifier::spinoff_prover]
#[verifier::rlimit(40)]
proof fn lemma_tag_tbody(x: UnstyledElement)
    ensures
        has_prefix(element_html(Element::Tbody(x)), "<tbody"@),
        has_suffix(element_html(Element::Tbody(x)), "</tbody>"@),
{
    reveal_strlit("<");
    reveal_strlit("</");
    reveal_strlit(">");
    reveal_strlit("tbody");
    reveal_strlit("<tbody");
    reveal_strlit("</tbody>");
    lemma_wrap_tag("tbody"@, opt_attr("lang"@, ostr(x.lang)), body_html(x.content));
    assert("<"@ + "tbody"@ =~= "<tbody"@);
    assert("</"@ + "tbody"@ + ">"@ =~= "</tbody>"@);
}

#[verifier::spinoff_prover]
#[verifier::rlimit(40)]
proof fn lemma_tag_tfoot(x: UnstyledElement)
    ensures
        has_prefix(element_html(Element::Tfoot(x)), "<tfoot"@),
        has_suffix(element_html(Element::Tfoot(x)), "</tfoot>"@),
{
    reveal_strlit("<");
    reveal_strlit("</");
    reveal_strlit(">");
    reveal_strlit("tfoot");
    reveal_strlit("<tfoot");
    reveal_strlit("</tfoot>");
    lemma_wrap_tag("tfoot"@, opt_attr("lang"@, ostr(x.lang)), body_html(x.content));
    assert("<"@ + "tfoot"@ =~= "<tfoot"@);
    assert("</"@ + "tfoot"@ + ">"@ =~= "</tfoot>"@);
}

#[verifier::spinoff_prover]
#[verifier::rlimit(40)]
proof fn lemma_tag_tr(x: UnstyledElement)
    ensures
        has_prefix(element_html(Element::Tr(x)), "<tr"@),
        has_suffix(element_html(Element::Tr(x)), "</tr>"@),
{
    reveal_strlit("<");
    reveal_strlit("</");
    reveal_strlit(">");
    reveal_strlit("tr");
    reveal_strlit("<tr");
    reveal_strlit("</tr>");
    lemma_wrap_tag("tr"@, opt_attr("lang"@, ostr(x.lang)), body_html(x.content));
    assert("<"@ + "tr"@ =~= "<tr"@);
    assert("</"@ + "tr"@ + ">"@ =~= "</tr>"@);
}

#[verifier::spinoff_prover]
#[verifier::rlimit(40)]
proof fn lemma_tag_td(x: TableElement)
    ensures
        has_prefix(element_html(Element::Td(x)), "<td"@),
        has_suffix(element_html(Element::Td(x)), "</td>"@),
{
    reveal_strlit("<");
    reveal_strlit("</");
    reveal_strlit(">");
    reveal_strlit("td");
    reveal_strlit("<td");
    reveal_strlit("</td>");
    lemma_table_tag("td"@, x);
    assert("<"@ + "td"@ =~= "<td"@);
    assert("</"@ + "td"@ + ">"@ =~= "</td>"@);
}

#[verifier::spinoff_prover]
#[verifier::rlimit(40)]
proof fn lemma_tag_th(x: TableElement)
    ensures
        has_prefix(element_html(Element::Th(x)), "<th"@),
        has_suffix(element_html(Element::Th(x)), "</th>"@),
{
    reveal_strlit("<");
    reveal_strlit("</");
    reveal_strlit(">");
    reveal_strlit("th");
    reveal_strlit("<th");
    reveal_strlit("</th>");
    lemma_table_tag("th"@, x);
    assert("<"@ + "th"@ =~= "<th"@);
    assert("</"@ + "th"@ + ">"@ =~= "</th>"@);
}

#[verifier::spinoff_prover]
#[verifier::rlimit(40)]
proof fn lemma_tag_span(x: StyledElement)
    ensures
        has_prefix(element_html(Element::Span(x)), "<span"@),
        has_suffix(element_html(Element::Span(x)), "</span>"@),
{
    reveal_strlit("<");
    reveal_strlit("</");
    reveal_strlit(">");
    reveal_strlit("span");
    reveal_strlit("<span");
    reveal_strlit("</span>");
    lemma_styled_tag("span"@, x);
    assert("<"@ + "span"@ =~= "<span"@);
    assert("</"@ + "span"@ + ">"@ =~= "</span>"@);
}

#[verifier::spinoff_prover]
#[verifier::rlimit(40)]
proof fn lemma_tag_div(x: StyledElement)
    ensures
        has_prefix(element_html(Element::Div(x)), "<div"@),
        has_suffix(element_html(Element::Div(x)), "</div>"@),
{
    reveal_strlit("<");
    reveal_strlit("</");
    reveal_strlit(">");
    reveal_strlit("div");
    reveal_strlit("<div");
    reveal_strlit("</div>");
    lemma_styled_tag("div"@, x);
    assert("<"@ + "div"@ =~= "<div"@);
    assert("</"@ + "div"@ + ">"@ =~= "</div>"@);
}

#[verifier::spinoff_prover]
#[verifier::rlimit(40)]
proof fn lemma_tag_ol(x: StyledElement)
    ensures
        has_prefix(element_html(Element::Ol(x)), "<ol"@),
        has_suffix(element_html(Element::Ol(x)), "</ol>"@),
{
    reveal_strlit("<");
    reveal_strlit("</");
    reveal_strlit(">");
    reveal_strlit("ol");
    reveal_strlit("<ol");
    reveal_strlit("</ol>");
    lemma_styled_tag("ol"@, x);
    assert("<"@ + "ol"@ =~= "<ol"@);
    assert("</"@ + "ol"@ + ">"@ =~= "</ol>"@);
}

#[verifier::spinoff_prover]
#[verifier::rlimit(40)]
proof fn lemma_tag_ul(x: StyledElement)
    ensures
        has_prefix(element_html(Element::Ul(x)), "<ul"@),
        has_suffix(element_html(Element::Ul(x)), "</ul>"@),
{
    reveal_strlit("<");
    reveal_strlit("</");
    reveal_strlit(">");
    reveal_strlit("ul");
    reveal_strlit("<ul");
    reveal_strlit("</ul>");
    lemma_styled_tag("ul"@, x);
    assert("<"@ + "ul"@ =~= "<ul"@);
    assert("</"@ + "ul"@ + ">"@ =~= "</ul>"@);
}

#[verifier::spinoff_prover]
#[verifier::rlimit(40)]
proof fn lemma_tag_li(x: StyledElement)
    ensures
        has_prefix(element_html(Element::Li(x)), "<li"@),
        has_suffix(element_html(Element::Li(x)), "</li>"@),
{
    reveal_strlit("<");
    reveal_strlit("</");
    reveal_strlit(">");
    reveal_strlit("li");
    reveal_strlit("<li");
    reveal_strlit("</li>");
    lemma_styled_tag("li"@, x);
    assert("<"@ + "li"@ =~= "<li"@);
    assert("</"@ + "li"@ + ">"@ =~= "</li>"@);
}

#[verifier::spinoff_prover]
#[verifier::rlimit(40)]
proof fn lemma_tag_details(x: StyledElement)
    ensures
        has_prefix(element_html(Element::Details(x)), "<details"@),
        has_suffix(element_html(Element::Details(x)), "</details>"@),
{
    reveal_strlit("<");
    reveal_strlit("</");
    reveal_strlit(">");
    reveal_strlit("details");
    reveal_strlit("<details");
    reveal_strlit("</details>");
    lemma_styled_tag("details"@, x);
    assert("<"@ + "details"@ =~= "<details"@);
    assert("</"@ + "details"@ + ">"@ =~= "</details>"@);
}

#[verifier::spinoff_prover]
#[verifier::rlimit(40)]
proof fn lemma_tag_summary(x: StyledElement)
    ensures
        has_prefix(element_html(Element::Summary(x)), "<summary"@),
        has_suffix(element_html(Element::Summary(x)), "</summary>"@),
{
    reveal_strlit("<");
    reveal_strlit("</");
    reveal_strlit(">");
    reveal_strlit("summary");
    reveal_strlit("<summary");
    reveal_strlit("</summary>");
    lemma_styled_tag("summary"@, x);
    assert("<"@ + "summary"@ =~= "<summary"@);
    assert("</"@ + "summary"@ + ">"@ =~= "</summary>"@);
}

#[verifier::spinoff_prover]
#[verifier::rlimit(40)]
proof fn lemma_tag_a(x: LinkElement)
    ensures
        has_prefix(element_html(Element::A(x)), "<a"@),
        has_suffix(element_html(Element::A(x)), "</a>"@),
{
    reveal_strlit("<");
    reveal_strlit("</");
    reveal_strlit(">");
    reveal_strlit("a");
    reveal_strlit("<a");
    reveal_strlit("</a>");
    lemma_wrap_tag("a"@, attr("href"@, x.href@) + opt_attr("lang"@, ostr(x.lang)), body_html(x.content));
    assert("<"@ + "a"@ =~= "<a"@);
    assert("</"@ + "a"@ + ">"@ =~= "</a>"@);
}

proof fn lemma_table_tag(tag: Seq<char>, t: TableElement)
    ensures
        has_prefix(table_html(tag, t), "<"@ + tag),
        has_suffix(table_html(tag, t), "</"@ + tag + ">"@),
{
    lemma_wrap_tag(
        tag,
        opt_attr("style"@, ocss(t.style)) + int_attr("col-span"@, t.col_span) + int_attr(
            "row_span"@,
            t.row_span,
        ) + opt_attr("lang"@, ostr(t.lang)),
        body_html(t.content),
    );
}

proof fn lemma_styled_tag(tag: Seq<char>, x: StyledElement)
    ensures
        has_prefix(styled_html(tag, x), "<"@ + tag),
        has_suffix(styled_html(tag, x), "</"@ + tag + ">"@),
{
    lemma_wrap_tag(
        tag,
        opt_attr("style"@, ocss(x.style)) + opt_attr("title"@, ostr(x.title)) + opt_attr(
            "open"@,
            obool(x.open),
        ) + opt_attr("lang"@, ostr(x.lang)),
        body_html(x.content),
    );
}

/// The characters of an optional string slice.
pub open spec fn oref(o: Option<&str>) -> Option<Seq<char>> {
    match o {
        Some(s) => Some(s@),
        None => None,
    }
}

fn as_opt_str(o: &Option<String>) -> (r: Option<&str>)
    ensures
        oref(r) == ostr(*o),
{
    match o {
        Some(s) => Some(s.as_str()),
        None => None,
    }
}

fn keyword_of<T: Keyword>(o: Option<T>) -> (r: Option<&'static str>)
    ensures
        oref(r) == okw(o),
{
    match o {
        Some(v) => Some(v.keyword_str()),
        None => None,
    }
}

fn nos_str(o: &Option<NumberOrString>) -> (r: Option<&str>)
    ensures
        oref(r) == onos(*o),
{
    match o {
        Some(NumberOrString::Number(s)) => Some(s.as_str()),
        Some(NumberOrString::String(s)) => Some(s.as_str()),
        None => None,
    }
}

fn bool_str(o: Option<bool>) -> (r: Option<&'static str>)
    ensures
        oref(r) == obool(o),
{
    match o {
        Some(true) => Some("true"),
        Some(false) => Some("false"),
        None => None,
    }
}

/// Appends the declaration `prop:value;`, if there is a value.
fn push_decl(out: &mut String, prop: &str, value: Option<&str>)
    ensures
        final(out)@ == old(out)@ + decl(prop@, oref(value)),
{
    match value {
        Some(v) => {
            let enc = encode_safe(v);
            push_str(out, prop);
            push_str(out, ":");
            push_str(out, enc.as_str());
            push_str(out, ";");
            proof {
                assert(out@ =~= old(out)@ + decl(prop@, oref(value)));
            }
        },
        None => {
            proof {
                assert(out@ =~= old(out)@ + decl(prop@, oref(value)));
            }
        },
    }
}

/// The inline CSS of a style (see [`css_of`]).
pub fn style_css(s: &ContentStyle) -> (r: String)
    ensures
        r@ == css_of(*s),
{
    let mut css = String::new();
    push_decl(&mut css, "font-style", keyword_of(s.font_style));
    proof {
        assert(css@ =~= decl("font-style"@, okw(s.font_style)));
    }
    push_decl(&mut css, "font-weight", keyword_of(s.font_weight));
    push_decl(&mut css, "font-size", as_opt_str(&s.font_size));
    push_decl(&mut css, "color", as_opt_str(&s.color));
    push_decl(&mut css, "background", as_opt_str(&s.background));
    push_decl(&mut css, "background-color", as_opt_str(&s.background_color));
    push_decl(&mut css, "text-decoration-style", keyword_of(s.text_decoration_style));
    push_decl(&mut css, "text-decoration-color", as_opt_str(&s.text_decoration_color));
    push_decl(&mut css, "border-color", as_opt_str(&s.border_color));
    push_decl(&mut css, "border-style", as_opt_str(&s.border_style));
    push_decl(&mut css, "border-radius", as_opt_str(&s.border_radius));
    push_decl(&mut css, "border-width", as_opt_str(&s.border_width));
    push_decl(&mut css, "clip-path", as_opt_str(&s.clip_path));
    push_decl(&mut css, "vertical-align", keyword_of(s.vertical_align));
    push_decl(&mut css, "text-align", keyword_of(s.text_align));
    push_decl(&mut css, "text-emphasis", as_opt_str(&s.text_emphasis));
    push_decl(&mut css, "text-shadow", as_opt_str(&s.text_shadow));
    push_decl(&mut css, "margin", as_opt_str(&s.margin));
    push_decl(&mut css, "margin-top", nos_str(&s.margin_top));
    push_decl(&mut css, "margin-left", nos_str(&s.margin_left));
    push_decl(&mut css, "margin-right", nos_str(&s.margin_right));
    push_decl(&mut css, "margin-bottom", nos_str(&s.margin_bottom));
    push_decl(&mut css, "padding", as_opt_str(&s.padding));
    push_decl(&mut css, "padding-top", as_opt_str(&s.padding_top));
    push_decl(&mut css, "padding-left", as_opt_str(&s.padding_left));
    push_decl(&mut css, "padding-right", as_opt_str(&s.padding_right));
    push_decl(&mut css, "padding-bottom", as_opt_str(&s.padding_bottom));
    push_decl(&mut css, "word-break", keyword_of(s.word_break));
    push_decl(&mut css, "white-space", as_opt_str(&s.white_space));
    push_decl(&mut css, "cursor", as_opt_str(&s.cursor));
    push_decl(&mut css, "list-style-type", as_opt_str(&s.list_style_type));
    css
}

/// Appends the inline CSS of a style to `out`.
pub fn write_style_css(out: &mut String, s: &ContentStyle)
    ensures
        final(out)@ == old(out)@ + css_of(*s),
{
    let css = style_css(s);
    push_str(out, css.as_str());
}

/// Appends ` name="value"`, the value escaped.
fn push_attr(out: &mut String, name: &str, value: &str)
    ensures
        final(out)@ == old(out)@ + attr(name@, value@),
{
    push_str(out, " ");
    push_str(out, name);
    push_str(out, "=\"");
    push_escaped(out, value);
    push_str(out, "\"");
    proof {
        assert(out@ =~= old(out)@ + attr(name@, value@));
    }
}

/// Appends an attribute when there is a value.
fn push_opt_attr(out: &mut String, name: &str, value: Option<&str>)
    ensures
        final(out)@ == old(out)@ + opt_attr(name@, oref(value)),
{
    match value {
        Some(v) => push_attr(out, name, v),
        None => {
            proof {
                assert(out@ =~= old(out)@ + opt_attr(name@, oref(value)));
            }
        },
    }
}

/// Appends an integer attribute when there is a value.
fn push_int_attr(out: &mut String, name: &str, value: Option<i64>)
    ensures
        final(out)@ == old(out)@ + int_attr(name@, value),
{
    match value {
        Some(n) => {
            push_str(out, " ");
            push_str(out, name);
            push_str(out, "=\"");
            push_decimal_i64(out, n);
            push_str(out, "\"");
            proof {
                assert(out@ =~= old(out)@ + int_attr(name@, value));
            }
        },
        None => {
            proof {
                assert(out@ =~= old(out)@ + int_attr(name@, value));
            }
        },
    }
}

/// Appends the CSS of an optional style as a `style` attribute.
fn push_style_attr(out: &mut String, style: &Option<ContentStyle>)
    ensures
        final(out)@ == old(out)@ + opt_attr("style"@, ocss(*style)),
{
    match style {
        Some(s) => {
            let css = style_css(s);
            push_attr(out, "style", css.as_str());
        },
        None => {
            proof {
                assert(out@ =~= old(out)@ + opt_attr("style"@, ocss(*style)));
            }
        },
    }
}

/// Appends the HTML of structured content.
pub fn render_content(c: &Content, out: &mut String)
    ensures
        final(out)@ == old(out)@ + content_html(*c),
    decreases c, 0nat,
{
    match c {
        Content::String(s) => push_escaped(out, s.as_str()),
        Content::Element(e) => render_element(&**e, out),
        Content::Content(cs) => {
            let ghost start = out@;
            let mut i: usize = 0;
            proof {
                assert(contents_html(cs@.subrange(0, 0)) =~= Seq::empty());
                assert(out@ =~= start + contents_html(cs@.subrange(0, 0)));
            }
            while i < cs.len()
                invariant
                    i <= cs@.len(),
                    out@ == start + contents_html(cs@.subrange(0, i as int)),
                    *c == Content::Content(*cs),
                decreases cs@.len() - i,
            {
                let ghost before = out@;
                proof {
                    assert((*c)->Content_0 == *cs);
                    assert(decreases_to!(*c => (*c)->Content_0));
                    assert(decreases_to!(*cs => cs@));
                    assert(decreases_to!(cs@ => cs@[i as int]));
                }
                render_content(&cs[i], out);
                proof {
                    let t = cs@.subrange(0, i as int + 1);
                    assert(t.subrange(0, t.len() - 1) =~= cs@.subrange(0, i as int));
                    assert(t[t.len() - 1] == cs@[i as int]);
                    assert(out@ =~= start + contents_html(t));
                }
                i = i + 1;
            }
            proof {
                assert(cs@.subrange(0, cs@.len() as int) =~= cs@);
            }
        },
    }
}

/// Appends the HTML of an element's optional body.
fn render_body(c: &Option<Content>, out: &mut String)
    ensures
        final(out)@ == old(out)@ + body_html(*c),
    decreases c, 0nat,
{
    match c {
        Some(x) => render_content(x, out),
        None => {
            proof {
                assert(out@ =~= old(out)@ + body_html(*c));
            }
        },
    }
}

/// Appends `<tag attrs>`.
fn push_start_tag(out: &mut String, tag: &str, attrs: &str)
    ensures
        final(out)@ == old(out)@ + "<"@ + tag@ + attrs@ + ">"@,
{
    push_str(out, "<");
    push_str(out, tag);
    push_str(out, attrs);
    push_str(out, ">");
}

/// Appends `</tag>`.
fn push_end_tag(out: &mut String, tag: &str)
    ensures
        final(out)@ == old(out)@ + "</"@ + tag@ + ">"@,
{
    push_str(out, "</");
    push_str(out, tag);
    push_str(out, ">");
}

/// Appends an element of the given tag, attributes and body.
fn render_wrapped(tag: &str, attrs: &str, body: &Option<Content>, out: &mut String)
    ensures
        final(out)@ == old(out)@ + wrap(tag@, attrs@, body_html(*body)),
    decreases body, 1nat,
{
    let ghost o = out@;
    push_start_tag(out, tag, attrs);
    let ghost a = out@;
    render_body(body, out);
    let ghost b = out@;
    push_end_tag(out, tag);
    proof {
        assert(out@ =~= o + wrap(tag@, attrs@, body_html(*body)));
    }
}

fn render_unstyled(tag: &str, u: &UnstyledElement, out: &mut String)
    ensures
        final(out)@ == old(out)@ + unstyled_html(tag@, *u),
    decreases u, 0nat,
{
    let mut attrs = String::new();
    push_opt_attr(&mut attrs, "lang", as_opt_str(&u.lang));
    proof {
        assert(attrs@ =~= opt_attr("lang"@, ostr(u.lang)));
    }
    render_wrapped(tag, attrs.as_str(), &u.content, out);
}

fn render_table(tag: &str, t: &TableElement, out: &mut String)
    ensures
        final(out)@ == old(out)@ + table_html(tag@, *t),
    decreases t, 0nat,
{
    let mut attrs = String::new();
    push_style_attr(&mut attrs, &t.style);
    proof {
        assert(attrs@ =~= opt_attr("style"@, ocss(t.style)));
    }
    push_int_attr(&mut attrs, "col-span", t.col_span);
    push_int_attr(&mut attrs, "row_span", t.row_span);
    push_opt_attr(&mut attrs, "lang", as_opt_str(&t.lang));
    render_wrapped(tag, attrs.as_str(), &t.content, out);
}

fn render_styled(tag: &str, s: &StyledElement, out: &mut String)
    ensures
        final(out)@ == old(out)@ + styled_html(tag@, *s),
    decreases s, 0nat,
{
    let mut attrs = String::new();
    push_style_attr(&mut attrs, &s.style);
    proof {
        assert(attrs@ =~= opt_attr("style"@, ocss(s.style)));
    }
    push_opt_attr(&mut attrs, "title", as_opt_str(&s.title));
    push_opt_attr(&mut attrs, "open", bool_str(s.open));
    push_opt_attr(&mut attrs, "lang", as_opt_str(&s.lang));
    render_wrapped(tag, attrs.as_str(), &s.content, out);
}

fn img_attributes(i: &ImageElement) -> (r: String)
    ensures
        r@ == img_attrs(*i),
{
    let mut at = String::new();
    push_opt_attr(&mut at, "width", as_opt_str(&i.base.width));
    proof {
        assert(at@ =~= opt_attr("width"@, ostr(i.base.width)));
    }
    push_opt_attr(&mut at, "height", as_opt_str(&i.base.height));
    push_opt_attr(&mut at, "preferred-width", as_opt_str(&i.base.preferred_width));
    push_opt_attr(&mut at, "preferred-height", as_opt_str(&i.base.preferred_height));
    push_opt_attr(&mut at, "title", as_opt_str(&i.base.title));
    push_opt_attr(&mut at, "alt", as_opt_str(&i.base.alt));
    push_opt_attr(&mut at, "description", as_opt_str(&i.base.description));
    push_opt_attr(&mut at, "pixelated", bool_str(i.base.pixelated));
    push_opt_attr(&mut at, "image-rendering", keyword_of(i.base.image_rendering));
    push_opt_attr(&mut at, "image-appearance", keyword_of(i.base.image_appearance));
    push_opt_attr(&mut at, "background", bool_str(i.base.background));
    push_opt_attr(&mut at, "collapsed", bool_str(i.base.collapsed));
    push_opt_attr(&mut at, "collapsible", bool_str(i.base.collapsible));
    push_opt_attr(&mut at, "vertical-align", keyword_of(i.vertical_align));
    push_opt_attr(&mut at, "border", as_opt_str(&i.border));
    push_opt_attr(&mut at, "border-radius", as_opt_str(&i.border_radius));
    push_opt_attr(&mut at, "size-units", keyword_of(i.size_units));
    at
}

fn render_img(i: &ImageElement, out: &mut String)
    ensures
        final(out)@ == old(out)@ + img_html(*i),
{
    let ghost o = out@;
    let at = img_attributes(i);
    push_str(out, "<img");
    push_attr(out, "path", i.base.path.as_str());
    push_str(out, at.as_str());
    push_str(out, ">");
    proof {
        assert(out@ =~= o + img_html(*i));
    }
}

fn render_link(l: &LinkElement, out: &mut String)
    ensures
        final(out)@ == old(out)@ + link_html(*l),
    decreases l, 0nat,
{
    let mut attrs = String::new();
    push_attr(&mut attrs, "href", l.href.as_str());
    proof {
        assert(attrs@ =~= attr("href"@, l.href@));
    }
    push_opt_attr(&mut attrs, "lang", as_opt_str(&l.lang));
    render_wrapped("a", attrs.as_str(), &l.content, out);
}

/// Appends the HTML of an element.
pub fn render_element(e: &Element, out: &mut String)
    ensures
        final(out)@ == old(out)@ + element_html(*e),
    decreases e, 0nat,
{
    match e {
        Element::Br(_) => push_str(out, "<br>"),
        Element::Ruby(u) => render_unstyled("ruby", u, out),
        Element::Rt(u) => render_unstyled("rt", u, out),
        Element::Rp(u) => render_unstyled("rp", u, out),
        Element::Table(u) => render_unstyled("table", u, out),
        Element::Thead(u) => render_unstyled("thead", u, out),
        Element::Tbody(u) => render_unstyled("tbody", u, out),
        Element::Tfoot(u) => render_unstyled("tfoot", u, out),
        Element::Tr(u) => render_unstyled("tr", u, out),
        Element::Td(t) => render_table("td", t, out),
        Element::Th(t) => render_table("th", t, out),
        Element::Span(s) => render_styled("span", s, out),
        Element::Div(s) => render_styled("div", s, out),
        Element::Ol(s) => render_styled("ol", s, out),
        Element::Ul(s) => render_styled("ul", s, out),
        Element::Li(s) => render_styled("li", s, out),
        Element::Details(s) => render_styled("details", s, out),
        Element::Summary(s) => render_styled("summary", s, out),
        Element::Img(i) => render_img(i, out),
        Element::A(l) => render_link(l, out),
    }
}

impl Content {
    /// This content as HTML.
    pub fn render(&self) -> (r: String)
        ensures
            r@ == content_html(*self),
    {
        let mut out = String::new();
        render_content(self, &mut out);
        proof {
            assert(out@ =~= content_html(*self));
        }
        out
    }
}

impl Element {
    /// This element as HTML.
    pub fn render(&self) -> (r: String)
        ensures
            r@ == element_html(*self),
    {
        let mut out = String::new();
        render_element(self, &mut out);
        proof {
            assert(out@ =~= element_html(*self));
        }
        out
    }
}

} // verus!
