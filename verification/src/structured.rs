//! Style keywords shared by every structured-content element, with the names
//! they are written with in CSS and in JSON.

use vstd::prelude::*;

verus! {

/// Vertical alignment of inline content.
#[derive(Debug, Clone, Copy, PartialEq, Eq, Hash, Structural)]
pub enum VerticalAlign {
    Baseline,
    Sub,
    Super,
    TextTop,
    TextBottom,
    Middle,
    Top,
    Bottom,
}

impl VerticalAlign {
    /// The name this value is written with, in CSS and in JSON.
    pub open spec fn spec_name(self) -> Seq<char> {
        match self {
            VerticalAlign::Baseline => "baseline"@,
            VerticalAlign::Sub => "sub"@,
            VerticalAlign::Super => "super"@,
            VerticalAlign::TextTop => "text-top"@,
            VerticalAlign::TextBottom => "text-bottom"@,
            VerticalAlign::Middle => "middle"@,
            VerticalAlign::Top => "top"@,
            VerticalAlign::Bottom => "bottom"@,
        }
    }

    /// The name this value is written with, in CSS and in JSON.
    pub fn as_str(self) -> (r: &'static str)
        ensures
            r@ == self.spec_name(),
    {
        match self {
            VerticalAlign::Baseline => "baseline",
            VerticalAlign::Sub => "sub",
            VerticalAlign::Super => "super",
            VerticalAlign::TextTop => "text-top",
            VerticalAlign::TextBottom => "text-bottom",
            VerticalAlign::Middle => "middle",
            VerticalAlign::Top => "top",
            VerticalAlign::Bottom => "bottom",
        }
    }

    /// Every value, in declaration order.
    pub fn all() -> (r: Vec<Self>)
        ensures
            r@ == seq![VerticalAlign::Baseline, VerticalAlign::Sub, VerticalAlign::Super, VerticalAlign::TextTop, VerticalAlign::TextBottom, VerticalAlign::Middle, VerticalAlign::Top, VerticalAlign::Bottom],
    {
        let r = vec![VerticalAlign::Baseline, VerticalAlign::Sub, VerticalAlign::Super, VerticalAlign::TextTop, VerticalAlign::TextBottom, VerticalAlign::Middle, VerticalAlign::Top, VerticalAlign::Bottom];
        proof { assert(r@ =~= seq![VerticalAlign::Baseline, VerticalAlign::Sub, VerticalAlign::Super, VerticalAlign::TextTop, VerticalAlign::TextBottom, VerticalAlign::Middle, VerticalAlign::Top, VerticalAlign::Bottom]); }
        r
    }
}

/// Kind of line drawn by a text decoration.
#[derive(Debug, Clone, Copy, PartialEq, Eq, Hash, Structural)]
pub enum TextDecorationLine {
    Underline,
    Overline,
    LineThrough,
}

impl TextDecorationLine {
    /// The name this value is written with, in CSS and in JSON.
    pub open spec fn spec_name(self) -> Seq<char> {
        match self {
            TextDecorationLine::Underline => "underline"@,
            TextDecorationLine::Overline => "overline"@,
            TextDecorationLine::LineThrough => "line-through"@,
        }
    }

    /// The name this value is written with, in CSS and in JSON.
    pub fn as_str(self) -> (r: &'static str)
        ensures
            r@ == self.spec_name(),
    {
        match self {
            TextDecorationLine::Underline => "underline",
            TextDecorationLine::Overline => "overline",
            TextDecorationLine::LineThrough => "line-through",
        }
    }

    /// Every value, in declaration order.
    pub fn all() -> (r: Vec<Self>)
        ensures
            r@ == seq![TextDecorationLine::Underline, TextDecorationLine::Overline, TextDecorationLine::LineThrough],
    {
        let r = vec![TextDecorationLine::Underline, TextDecorationLine::Overline, TextDecorationLine::LineThrough];
        proof { assert(r@ =~= seq![TextDecorationLine::Underline, TextDecorationLine::Overline, TextDecorationLine::LineThrough]); }
        r
    }
}

/// Style of the line drawn by a text decoration.
#[derive(Debug, Clone, Copy, PartialEq, Eq, Hash, Structural)]
pub enum TextDecorationStyle {
    Solid,
    Double,
    Dotted,
    Dashed,
    Wavy,
}

impl TextDecorationStyle {
    /// The name this value is written with, in CSS and in JSON.
    pub open spec fn spec_name(self) -> Seq<char> {
        match self {
            TextDecorationStyle::Solid => "solid"@,
            TextDecorationStyle::Double => "double"@,
            TextDecorationStyle::Dotted => "dotted"@,
            TextDecorationStyle::Dashed => "dashed"@,
            TextDecorationStyle::Wavy => "wavy"@,
        }
    }

    /// The name this value is written with, in CSS and in JSON.
    pub fn as_str(self) -> (r: &'static str)
        ensures
            r@ == self.spec_name(),
    {
        match self {
            TextDecorationStyle::Solid => "solid",
            TextDecorationStyle::Double => "double",
            TextDecorationStyle::Dotted => "dotted",
            TextDecorationStyle::Dashed => "dashed",
            TextDecorationStyle::Wavy => "wavy",
        }
    }

    /// Every value, in declaration order.
    pub fn all() -> (r: Vec<Self>)
        ensures
            r@ == seq![TextDecorationStyle::Solid, TextDecorationStyle::Double, TextDecorationStyle::Dotted, TextDecorationStyle::Dashed, TextDecorationStyle::Wavy],
    {
        let r = vec![TextDecorationStyle::Solid, TextDecorationStyle::Double, TextDecorationStyle::Dotted, TextDecorationStyle::Dashed, TextDecorationStyle::Wavy];
        proof { assert(r@ =~= seq![TextDecorationStyle::Solid, TextDecorationStyle::Double, TextDecorationStyle::Dotted, TextDecorationStyle::Dashed, TextDecorationStyle::Wavy]); }
        r
    }
}

/// Font style.
#[derive(Debug, Clone, Copy, PartialEq, Eq, Hash, Structural)]
pub enum FontStyle {
    Normal,
    Italic,
}

impl FontStyle {
    /// The name this value is written with, in CSS and in JSON.
    pub open spec fn spec_name(self) -> Seq<char> {
        match self {
            FontStyle::Normal => "normal"@,
            FontStyle::Italic => "italic"@,
        }
    }

    /// The name this value is written with, in CSS and in JSON.
    pub fn as_str(self) -> (r: &'static str)
        ensures
            r@ == self.spec_name(),
    {
        match self {
            FontStyle::Normal => "normal",
            FontStyle::Italic => "italic",
        }
    }

    /// Every value, in declaration order.
    pub fn all() -> (r: Vec<Self>)
        ensures
            r@ == seq![FontStyle::Normal, FontStyle::Italic],
    {
        let r = vec![FontStyle::Normal, FontStyle::Italic];
        proof { assert(r@ =~= seq![FontStyle::Normal, FontStyle::Italic]); }
        r
    }
}

/// Font weight.
#[derive(Debug, Clone, Copy, PartialEq, Eq, Hash, Structural)]
pub enum FontWeight {
    Normal,
    Bold,
}

impl FontWeight {
    /// The name this value is written with, in CSS and in JSON.
    pub open spec fn spec_name(self) -> Seq<char> {
        match self {
            FontWeight::Normal => "normal"@,
            FontWeight::Bold => "bold"@,
        }
    }

    /// The name this value is written with, in CSS and in JSON.
    pub fn as_str(self) -> (r: &'static str)
        ensures
            r@ == self.spec_name(),
    {
        match self {
            FontWeight::Normal => "normal",
            FontWeight::Bold => "bold",
        }
    }

    /// Every value, in declaration order.
    pub fn all() -> (r: Vec<Self>)
        ensures
            r@ == seq![FontWeight::Normal, FontWeight::Bold],
    {
        let r = vec![FontWeight::Normal, FontWeight::Bold];
        proof { assert(r@ =~= seq![FontWeight::Normal, FontWeight::Bold]); }
        r
    }
}

/// Where lines may break within words.
#[derive(Debug, Clone, Copy, PartialEq, Eq, Hash, Structural)]
pub enum WordBreak {
    Normal,
    BreakAll,
    KeepAll,
}

impl WordBreak {
    /// The name this value is written with, in CSS and in JSON.
    pub open spec fn spec_name(self) -> Seq<char> {
        match self {
            WordBreak::Normal => "normal"@,
            WordBreak::BreakAll => "break-all"@,
            WordBreak::KeepAll => "keep-all"@,
        }
    }

    /// The name this value is written with, in CSS and in JSON.
    pub fn as_str(self) -> (r: &'static str)
        ensures
            r@ == self.spec_name(),
    {
        match self {
            WordBreak::Normal => "normal",
            WordBreak::BreakAll => "break-all",
            WordBreak::KeepAll => "keep-all",
        }
    }

    /// Every value, in declaration order.
    pub fn all() -> (r: Vec<Self>)
        ensures
            r@ == seq![WordBreak::Normal, WordBreak::BreakAll, WordBreak::KeepAll],
    {
        let r = vec![WordBreak::Normal, WordBreak::BreakAll, WordBreak::KeepAll];
        proof { assert(r@ =~= seq![WordBreak::Normal, WordBreak::BreakAll, WordBreak::KeepAll]); }
        r
    }
}

/// Horizontal alignment of text.
#[derive(Debug, Clone, Copy, PartialEq, Eq, Hash, Structural)]
pub enum TextAlign {
    Start,
    End,
    Left,
    Right,
    Center,
    Justify,
}

impl TextAlign {
    /// The name this value is written with, in CSS and in JSON.
    pub open spec fn spec_name(self) -> Seq<char> {
        match self {
            TextAlign::Start => "start"@,
            TextAlign::End => "end"@,
            TextAlign::Left => "left"@,
            TextAlign::Right => "right"@,
            TextAlign::Center => "center"@,
            TextAlign::Justify => "justify"@,
        }
    }

    /// The name this value is written with, in CSS and in JSON.
    pub fn as_str(self) -> (r: &'static str)
        ensures
            r@ == self.spec_name(),
    {
        match self {
            TextAlign::Start => "start",
            TextAlign::End => "end",
            TextAlign::Left => "left",
            TextAlign::Right => "right",
            TextAlign::Center => "center",
            TextAlign::Justify => "justify",
        }
    }

    /// Every value, in declaration order.
    pub fn all() -> (r: Vec<Self>)
        ensures
            r@ == seq![TextAlign::Start, TextAlign::End, TextAlign::Left, TextAlign::Right, TextAlign::Center, TextAlign::Justify],
    {
        let r = vec![TextAlign::Start, TextAlign::End, TextAlign::Left, TextAlign::Right, TextAlign::Center, TextAlign::Justify];
        proof { assert(r@ =~= seq![TextAlign::Start, TextAlign::End, TextAlign::Left, TextAlign::Right, TextAlign::Center, TextAlign::Justify]); }
        r
    }
}

/// Units in which an image's size is given.
#[derive(Debug, Clone, Copy, PartialEq, Eq, Hash, Structural)]
pub enum SizeUnits {
    Px,
    Em,
}

impl SizeUnits {
    /// The name this value is written with, in CSS and in JSON.
    pub open spec fn spec_name(self) -> Seq<char> {
        match self {
            SizeUnits::Px => "px"@,
            SizeUnits::Em => "em"@,
        }
    }

    /// The name this value is written with, in CSS and in JSON.
    pub fn as_str(self) -> (r: &'static str)
        ensures
            r@ == self.spec_name(),
    {
        match self {
            SizeUnits::Px => "px",
            SizeUnits::Em => "em",
        }
    }

    /// Every value, in declaration order.
    pub fn all() -> (r: Vec<Self>)
        ensures
            r@ == seq![SizeUnits::Px, SizeUnits::Em],
    {
        let r = vec![SizeUnits::Px, SizeUnits::Em];
        proof { assert(r@ =~= seq![SizeUnits::Px, SizeUnits::Em]); }
        r
    }
}

/// How an image is scaled.
#[derive(Debug, Clone, Copy, PartialEq, Eq, Hash, Structural)]
pub enum ImageRendering {
    Auto,
    Pixelated,
    CrispEdges,
}

impl ImageRendering {
    /// The name this value is written with, in CSS and in JSON.
    pub open spec fn spec_name(self) -> Seq<char> {
        match self {
            ImageRendering::Auto => "auto"@,
            ImageRendering::Pixelated => "pixelated"@,
            ImageRendering::CrispEdges => "crisp-edges"@,
        }
    }

    /// The name this value is written with, in CSS and in JSON.
    pub fn as_str(self) -> (r: &'static str)
        ensures
            r@ == self.spec_name(),
    {
        match self {
            ImageRendering::Auto => "auto",
            ImageRendering::Pixelated => "pixelated",
            ImageRendering::CrispEdges => "crisp-edges",
        }
    }

    /// Every value, in declaration order.
    pub fn all() -> (r: Vec<Self>)
        ensures
            r@ == seq![ImageRendering::Auto, ImageRendering::Pixelated, ImageRendering::CrispEdges],
    {
        let r = vec![ImageRendering::Auto, ImageRendering::Pixelated, ImageRendering::CrispEdges];
        proof { assert(r@ =~= seq![ImageRendering::Auto, ImageRendering::Pixelated, ImageRendering::CrispEdges]); }
        r
    }
}

/// How an image is coloured.
#[derive(Debug, Clone, Copy, PartialEq, Eq, Hash, Structural)]
pub enum ImageAppearance {
    Auto,
    Monochrome,
}

impl ImageAppearance {
    /// The name this value is written with, in CSS and in JSON.
    pub open spec fn spec_name(self) -> Seq<char> {
        match self {
            ImageAppearance::Auto => "auto"@,
            ImageAppearance::Monochrome => "monochrome"@,
        }
    }

    /// The name this value is written with, in CSS and in JSON.
    pub fn as_str(self) -> (r: &'static str)
        ensures
            r@ == self.spec_name(),
    {
        match self {
            ImageAppearance::Auto => "auto",
            ImageAppearance::Monochrome => "monochrome",
        }
    }

    /// Every value, in declaration order.
    pub fn all() -> (r: Vec<Self>)
        ensures
            r@ == seq![ImageAppearance::Auto, ImageAppearance::Monochrome],
    {
        let r = vec![ImageAppearance::Auto, ImageAppearance::Monochrome];
        proof { assert(r@ =~= seq![ImageAppearance::Auto, ImageAppearance::Monochrome]); }
        r
    }
}

/// A style value that is written as a keyword, in CSS and in attributes.
pub trait Keyword: Copy {
    /// The keyword this value is written as.
    spec fn keyword(self) -> Seq<char>;

    /// The keyword this value is written as.
    fn keyword_str(self) -> (r: &'static str)
        ensures
            r@ == self.keyword(),
    ;
}

impl Keyword for VerticalAlign {
    open spec fn keyword(self) -> Seq<char> {
        self.spec_name()
    }

    fn keyword_str(self) -> (r: &'static str) {
        self.as_str()
    }
}

impl Keyword for TextDecorationLine {
    open spec fn keyword(self) -> Seq<char> {
        self.spec_name()
    }

    fn keyword_str(self) -> (r: &'static str) {
        self.as_str()
    }
}

impl Keyword for TextDecorationStyle {
    open spec fn keyword(self) -> Seq<char> {
        self.spec_name()
    }

    fn keyword_str(self) -> (r: &'static str) {
        self.as_str()
    }
}

impl Keyword for FontStyle {
    open spec fn keyword(self) -> Seq<char> {
        self.spec_name()
    }

    fn keyword_str(self) -> (r: &'static str) {
        self.as_str()
    }
}

impl Keyword for FontWeight {
    open spec fn keyword(self) -> Seq<char> {
        self.spec_name()
    }

    fn keyword_str(self) -> (r: &'static str) {
        self.as_str()
    }
}

impl Keyword for WordBreak {
    open spec fn keyword(self) -> Seq<char> {
        self.spec_name()
    }

    fn keyword_str(self) -> (r: &'static str) {
        self.as_str()
    }
}

impl Keyword for TextAlign {
    open spec fn keyword(self) -> Seq<char> {
        self.spec_name()
    }

    fn keyword_str(self) -> (r: &'static str) {
        self.as_str()
    }
}

impl Keyword for SizeUnits {
    open spec fn keyword(self) -> Seq<char> {
        self.spec_name()
    }

    fn keyword_str(self) -> (r: &'static str) {
        self.as_str()
    }
}

impl Keyword for ImageRendering {
    open spec fn keyword(self) -> Seq<char> {
        self.spec_name()
    }

    fn keyword_str(self) -> (r: &'static str) {
        self.as_str()
    }
}

impl Keyword for ImageAppearance {
    open spec fn keyword(self) -> Seq<char> {
        self.spec_name()
    }

    fn keyword_str(self) -> (r: &'static str) {
        self.as_str()
    }
}

/// Key/value data attached to an element, in the order given.
#[derive(Debug, Clone, Default)]
pub struct Data(pub Vec<(String, String)>);

/// A CSS length or keyword: a number (held as its decimal text) or a string.
#[derive(Debug, Clone)]
pub enum NumberOrString {
    Number(String),
    String(String),
}

/// Inline style of an element.
#[derive(Debug, Clone, Default)]
pub struct ContentStyle {
    pub font_style: Option<FontStyle>,
    pub font_weight: Option<FontWeight>,
    pub font_size: Option<String>,
    pub color: Option<String>,
    pub background: Option<String>,
    pub background_color: Option<String>,
    pub text_decoration_line: Vec<TextDecorationLine>,
    pub text_decoration_style: Option<TextDecorationStyle>,
    pub text_decoration_color: Option<String>,
    pub border_color: Option<String>,
    pub border_style: Option<String>,
    pub border_radius: Option<String>,
    pub border_width: Option<String>,
    pub clip_path: Option<String>,
    pub vertical_align: Option<VerticalAlign>,
    pub text_align: Option<TextAlign>,
    pub text_emphasis: Option<String>,
    pub text_shadow: Option<String>,
    pub margin: Option<String>,
    pub margin_top: Option<NumberOrString>,
    pub margin_left: Option<NumberOrString>,
    pub margin_right: Option<NumberOrString>,
    pub margin_bottom: Option<NumberOrString>,
    pub padding: Option<String>,
    pub padding_top: Option<String>,
    pub padding_left: Option<String>,
    pub padding_right: Option<String>,
    pub padding_bottom: Option<String>,
    pub word_break: Option<WordBreak>,
    pub white_space: Option<String>,
    pub cursor: Option<String>,
    pub list_style_type: Option<String>,
}

/// Structured content of a Yomitan glossary.
#[derive(Debug)]
pub enum Content {
    String(String),
    Element(Box<Element>),
    Content(Vec<Content>),
}

/// A structured-content element, by tag.
#[derive(Debug)]
pub enum Element {
    Br(LineBreakElement),
    Ruby(UnstyledElement),
    Rt(UnstyledElement),
    Rp(UnstyledElement),
    Table(UnstyledElement),
    Thead(UnstyledElement),
    Tbody(UnstyledElement),
    Tfoot(UnstyledElement),
    Tr(UnstyledElement),
    Td(TableElement),
    Th(TableElement),
    Span(StyledElement),
    Div(StyledElement),
    Ol(StyledElement),
    Ul(StyledElement),
    Li(StyledElement),
    Details(StyledElement),
    Summary(StyledElement),
    Img(ImageElement),
    A(LinkElement),
}

/// A line break.
#[derive(Debug, Clone, Default)]
pub struct LineBreakElement {
    pub data: Option<Data>,
}

/// An element without style: a ruby or table part.
#[derive(Debug, Default)]
pub struct UnstyledElement {
    pub content: Option<Content>,
    pub data: Option<Data>,
    pub lang: Option<String>,
}

/// A table cell.
#[derive(Debug, Default)]
pub struct TableElement {
    pub content: Option<Content>,
    pub data: Option<Data>,
    pub col_span: Option<i64>,
    pub row_span: Option<i64>,
    pub style: Option<ContentStyle>,
    pub lang: Option<String>,
}

/// An element with a style.
#[derive(Debug, Default)]
pub struct StyledElement {
    pub content: Option<Content>,
    pub data: Option<Data>,
    pub style: Option<ContentStyle>,
    pub title: Option<String>,
    pub open: Option<bool>,
    pub lang: Option<String>,
}

/// An image element: its base, and how it sits in the text.
#[derive(Debug, Clone, Default)]
pub struct ImageElement {
    pub base: ImageElementBase,
    pub vertical_align: Option<VerticalAlign>,
    pub border: Option<String>,
    pub border_radius: Option<String>,
    pub size_units: Option<SizeUnits>,
}

/// What an image is; sizes are held as their decimal text.
#[derive(Debug, Clone, Default)]
pub struct ImageElementBase {
    pub data: Option<Data>,
    pub path: String,
    pub width: Option<String>,
    pub height: Option<String>,
    pub preferred_width: Option<String>,
    pub preferred_height: Option<String>,
    pub title: Option<String>,
    pub alt: Option<String>,
    pub description: Option<String>,
    pub pixelated: Option<bool>,
    pub image_rendering: Option<ImageRendering>,
    pub image_appearance: Option<ImageAppearance>,
    pub background: Option<bool>,
    pub collapsed: Option<bool>,
    pub collapsible: Option<bool>,
}

/// A link to another entry.
#[derive(Debug, Default)]
pub struct LinkElement {
    pub content: Option<Content>,
    pub href: String,
    pub lang: Option<String>,
}

} // verus!
