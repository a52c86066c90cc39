//! Normalized structured content of a glossary: one-line strings, lists and
//! elements, and the conversion of multi-line text into lines separated by
//! line breaks.

use vstd::prelude::*;

pub use crate::structured::{
    ContentStyle, Data, FontStyle, FontWeight, ImageAppearance, ImageRendering, NumberOrString,
    SizeUnits, TextAlign, TextDecorationLine, TextDecorationStyle, VerticalAlign, WordBreak,
};
use crate::text::{chars_of, string_of};

verus! {

/// A string that holds no newline.
#[derive(Debug, Clone, PartialEq, Eq, Hash)]
pub struct OneLineString(String);

impl View for OneLineString {
    type V = Seq<char>;

    closed spec fn view(&self) -> Seq<char> {
        self.0@
    }
}

impl OneLineString {
    /// Creates a new value from a string that holds no newline, without
    /// checking it at run time.
    pub fn new_unchecked(s: String) -> (r: OneLineString)
        requires
            !s@.contains('\n'),
        ensures
            r@ == s@,
    {
        OneLineString(s)
    }

    /// Gets a shared reference to the underlying string.
    pub fn get(&self) -> (r: &str)
        ensures
            r@ == self@,
    {
        self.0.as_str()
    }

    /// Takes the underlying string out of this value.
    pub fn into_inner(self) -> (r: String)
        ensures
            r@ == self@,
    {
        self.0
    }
}

/// Top-level content element.
#[derive(Debug)]
pub enum Content {
    /// Single line of plain text.
    Text(OneLineString),
    /// Compound element which may contain more content.
    Element(Box<Element>),
    /// Sequential list of content.
    List(Vec<Content>),
}

/// A compound content element.
#[derive(Debug)]
pub enum Element {
    LineBreak(LineBreakElement),
    Image(ImageElement),
    Link(LinkElement),
    Unstyled { kind: UnstyledKind, elem: UnstyledElement },
    Styled { kind: StyledKind, elem: StyledElement },
    Cell { kind: CellKind, elem: CellElement },
}

/// A line break.
#[derive(Debug, Clone, Default)]
pub struct LineBreakElement {
    pub data: Data,
}

/// An element without style.
#[derive(Debug)]
pub struct UnstyledElement {
    pub content: Content,
    pub data: Data,
    pub lang: Option<String>,
}

/// An element with a style.
#[derive(Debug)]
pub struct StyledElement {
    pub content: Content,
    pub data: Data,
    pub style: ContentStyle,
    pub title: Option<String>,
    pub open: Option<bool>,
    pub lang: Option<String>,
}

/// A table cell; spans are at least 1.
#[derive(Debug)]
pub struct CellElement {
    pub kind: CellKind,
    pub content: Content,
    pub data: Data,
    pub col_span: u64,
    pub row_span: u64,
    pub style: ContentStyle,
    pub lang: Option<String>,
}

/// A link.
#[derive(Debug)]
pub struct LinkElement {
    pub content: Content,
    pub href: String,
    pub lang: Option<String>,
}

/// An image; sizes are held as their decimal text.
#[derive(Debug, Clone, Default)]
pub struct ImageElement {
    pub data: Option<Data>,
    pub path: String,
    pub width: Option<String>,
    pub height: Option<String>,
    pub preferred_width: Option<String>,
    pub preferred_height: Option<String>,
    pub title: Option<String>,
    pub alt: Option<String>,
    pub description: Option<String>,
    pub pixelated: Option<bool>,
    pub image_rendering: Option<ImageRendering>,
    pub image_appearance: Option<ImageAppearance>,
    pub background: Option<bool>,
    pub collapsed: Option<bool>,
    pub collapsible: Option<bool>,
    pub vertical_align: Option<VerticalAlign>,
    pub border: Option<String>,
    pub border_radius: Option<String>,
    pub size_units: Option<SizeUnits>,
}

/// Element kinds that carry no style.
#[derive(Debug, Clone, Copy, PartialEq, Eq, Hash, Structural)]
pub enum UnstyledKind {
    Ruby,
    Rt,
    Rp,
    Table,
    Thead,
    Tbody,
    Tfoot,
    Tr,
}

impl UnstyledKind {
    /// The name this value is written with, in CSS and in JSON.
    pub open spec fn spec_name(self) -> Seq<char> {
        match self {
            UnstyledKind::Ruby => "Ruby"@,
            UnstyledKind::Rt => "Rt"@,
            UnstyledKind::Rp => "Rp"@,
            UnstyledKind::Table => "Table"@,
            UnstyledKind::Thead => "Thead"@,
            UnstyledKind::Tbody => "Tbody"@,
            UnstyledKind::Tfoot => "Tfoot"@,
            UnstyledKind::Tr => "Tr"@,
        }
    }

    /// The name this value is written with, in CSS and in JSON.
    pub fn as_str(self) -> (r: &'static str)
        ensures
            r@ == self.spec_name(),
    {
        match self {
            UnstyledKind::Ruby => "Ruby",
            UnstyledKind::Rt => "Rt",
            UnstyledKind::Rp => "Rp",
            UnstyledKind::Table => "Table",
            UnstyledKind::Thead => "Thead",
            UnstyledKind::Tbody => "Tbody",
            UnstyledKind::Tfoot => "Tfoot",
            UnstyledKind::Tr => "Tr",
        }
    }

    /// Every value, in declaration order.
    pub fn all() -> (r: Vec<Self>)
        ensures
            r@ == seq![UnstyledKind::Ruby, UnstyledKind::Rt, UnstyledKind::Rp, UnstyledKind::Table, UnstyledKind::Thead, UnstyledKind::Tbody, UnstyledKind::Tfoot, UnstyledKind::Tr],
    {
        let r = vec![UnstyledKind::Ruby, UnstyledKind::Rt, UnstyledKind::Rp, UnstyledKind::Table, UnstyledKind::Thead, UnstyledKind::Tbody, UnstyledKind::Tfoot, UnstyledKind::Tr];
        proof { assert(r@ =~= seq![UnstyledKind::Ruby, UnstyledKind::Rt, UnstyledKind::Rp, UnstyledKind::Table, UnstyledKind::Thead, UnstyledKind::Tbody, UnstyledKind::Tfoot, UnstyledKind::Tr]); }
        r
    }
}

/// Table cell element kinds.
#[derive(Debug, Clone, Copy, PartialEq, Eq, Hash, Structural)]
pub enum CellKind {
    Td,
    Th,
}

impl CellKind {
    /// The name this value is written with, in CSS and in JSON.
    pub open spec fn spec_name(self) -> Seq<char> {
        match self {
            CellKind::Td => "Td"@,
            CellKind::Th => "Th"@,
        }
    }

    /// The name this value is written with, in CSS and in JSON.
    pub fn as_str(self) -> (r: &'static str)
        ensures
            r@ == self.spec_name(),
    {
        match self {
            CellKind::Td => "Td",
            CellKind::Th => "Th",
        }
    }

    /// Every value, in declaration order.
    pub fn all() -> (r: Vec<Self>)
        ensures
            r@ == seq![CellKind::Td, CellKind::Th],
    {
        let r = vec![CellKind::Td, CellKind::Th];
        proof { assert(r@ =~= seq![CellKind::Td, CellKind::Th]); }
        r
    }
}

/// Element kinds that may carry a style.
#[derive(Debug, Clone, Copy, PartialEq, Eq, Hash, Structural)]
pub enum StyledKind {
    Span,
    Div,
    Ol,
    Ul,
    Li,
    Details,
    Summary,
}

impl StyledKind {
    /// The name this value is written with, in CSS and in JSON.
    pub open spec fn spec_name(self) -> Seq<char> {
        match self {
            StyledKind::Span => "Span"@,
            StyledKind::Div => "Div"@,
            StyledKind::Ol => "Ol"@,
            StyledKind::Ul => "Ul"@,
            StyledKind::Li => "Li"@,
            StyledKind::Details => "Details"@,
            StyledKind::Summary => "Summary"@,
        }
    }

    /// The name this value is written with, in CSS and in JSON.
    pub fn as_str(self) -> (r: &'static str)
        ensures
            r@ == self.spec_name(),
    {
        match self {
            StyledKind::Span => "Span",
            StyledKind::Div => "Div",
            StyledKind::Ol => "Ol",
            StyledKind::Ul => "Ul",
            StyledKind::Li => "Li",
            StyledKind::Details => "Details",
            StyledKind::Summary => "Summary",
        }
    }

    /// Every value, in declaration order.
    pub fn all() -> (r: Vec<Self>)
        ensures
            r@ == seq![StyledKind::Span, StyledKind::Div, StyledKind::Ol, StyledKind::Ul, StyledKind::Li, StyledKind::Details, StyledKind::Summary],
    {
        let r = vec![StyledKind::Span, StyledKind::Div, StyledKind::Ol, StyledKind::Ul, StyledKind::Li, StyledKind::Details, StyledKind::Summary];
        proof { assert(r@ =~= seq![StyledKind::Span, StyledKind::Div, StyledKind::Ol, StyledKind::Ul, StyledKind::Li, StyledKind::Details, StyledKind::Summary]); }
        r
    }
}

/// Position of the first `'\n'` in `s`, or `s.len()` if there is none.
pub open spec fn first_newline(s: Seq<char>) -> int
    decreases s.len(),
{
    if s.len() == 0 {
        0
    } else if s[0] == '\n' {
        0
    } else {
        1 + first_newline(s.drop_first())
    }
}

/// A line without the `'\r'` that ends it, if it has one.
pub open spec fn strip_cr(line: Seq<char>) -> Seq<char> {
    if line.len() > 0 && line.last() == '\r' {
        line.drop_last()
    } else {
        line
    }
}

/// The lines of `s`, as `str::lines` splits them: at each `'\n'`, dropping
/// a `'\r'` right before it, with no empty line after a final `'\n'`.
pub open spec fn lines_of(s: Seq<char>) -> Seq<Seq<char>>
    decreases s.len(),
{
    if s.len() == 0 {
        Seq::empty()
    } else {
        let i = first_newline(s);
        if i >= s.len() {
            seq![s]
        } else {
            proof {
                lemma_first_newline(s);
            }
            seq![strip_cr(s.take(i))] + lines_of(s.skip(i + 1))
        }
    }
}

/// Bounds and meaning of [`first_newline`].
pub proof fn lemma_first_newline(s: Seq<char>)
    ensures
        0 <= first_newline(s) <= s.len(),
        first_newline(s) < s.len() ==> s[first_newline(s)] == '\n',
        forall|j: int| 0 <= j < first_newline(s) ==> s[j] != '\n',
    decreases s.len(),
{
    if s.len() > 0 && s[0] != '\n' {
        lemma_first_newline(s.drop_first());
        assert forall|j: int| 0 <= j < first_newline(s) implies s[j] != '\n' by {
            if j > 0 {
                assert(s[j] == s.drop_first()[j - 1]);
            }
        }
    }
}

/// Splits `s` into its lines (see [`lines_of`]).
pub fn lines(s: &str) -> (r: Vec<String>)
    ensures
        r@.map_values(|l: String| l@) == lines_of(s@),
{
    let cs = chars_of(s);
    let n = cs.len();
    let mut out: Vec<String> = Vec::new();
    let mut start: usize = 0;
    let mut i: usize = 0;
    proof {
        assert(cs@.skip(0) =~= cs@);
        assert(out@.map_values(|l: String| l@) =~= Seq::<Seq<char>>::empty());
    }
    while i < n
        invariant
            n == cs@.len(),
            start <= i <= n,
            forall|j: int| start <= j < i ==> cs@[j] != '\n',
            lines_of(cs@) == out@.map_values(|l: String| l@) + lines_of(cs@.skip(start as int)),
        decreases n - i,
    {
        if cs[i] == '\n' {
            let ghost rest = cs@.skip(start as int);
            let ghost before = out@.map_values(|l: String| l@);
            let end = if i > start && cs[i - 1] == '\r' {
                i - 1
            } else {
                i
            };
            let line = string_of(&cs, start, end);
            out.push(line);
            proof {
                lemma_first_newline(rest);
                assert(rest[(i - start) as int] == '\n');
                if first_newline(rest) != (i - start) as int {
                    assert(rest[first_newline(rest)] == cs@[start + first_newline(rest)]);
                }
                assert(first_newline(rest) == (i - start) as int);
                assert(rest.take((i - start) as int) =~= cs@.subrange(start as int, i as int));
                assert(strip_cr(rest.take((i - start) as int)) =~= cs@.subrange(start as int, end as int));
                assert(rest.skip((i - start) as int + 1) =~= cs@.skip(i + 1));
                assert(out@.map_values(|l: String| l@) =~= before.push(line@));
                assert(before + lines_of(rest) =~= before.push(line@) + lines_of(cs@.skip(i + 1)));
            }
            start = i + 1;
        }
        i = i + 1;
    }
    if start < n {
        let ghost rest = cs@.skip(start as int);
        let ghost before = out@.map_values(|l: String| l@);
        let line = string_of(&cs, start, n);
        out.push(line);
        proof {
            lemma_first_newline(rest);
            if first_newline(rest) < rest.len() {
                assert(rest[first_newline(rest)] == cs@[start + first_newline(rest)]);
            }
            assert(rest =~= cs@.subrange(start as int, n as int));
            assert(out@.map_values(|l: String| l@) =~= before.push(line@));
            assert(lines_of(rest) =~= seq![rest]);
            assert(before + lines_of(rest) =~= before.push(line@));
        }
    } else {
        proof {
            assert(cs@.skip(start as int) =~= Seq::<char>::empty());
            assert(out@.map_values(|l: String| l@) + Seq::<Seq<char>>::empty() =~= out@.map_values(
                |l: String| l@,
            ));
        }
    }
    out
}

/// No line holds a newline.
pub proof fn lemma_lines_have_no_newline(s: Seq<char>, k: int, j: int)
    requires
        0 <= k < lines_of(s).len(),
        0 <= j < lines_of(s)[k].len(),
    ensures
        lines_of(s)[k][j] != '\n',
    decreases s.len(),
{
    lemma_first_newline(s);
    let i = first_newline(s);
    if i >= s.len() {
    } else if k == 0 {
        assert(lines_of(s)[0] == strip_cr(s.take(i)));
        assert(s.take(i)[j] == s[j]);
    } else {
        assert(lines_of(s)[k] == lines_of(s.skip(i + 1))[k - 1]);
        lemma_lines_have_no_newline(s.skip(i + 1), k - 1, j);
    }
}

/// Whether `c` is the text-and-line-break list made of the lines `ls`: the
/// lines as text at even positions, a line break between each two.
pub open spec fn is_line_list(items: Seq<Content>, ls: Seq<Seq<char>>) -> bool {
    &&& ls.len() > 0
    &&& items.len() == 2 * ls.len() - 1
    &&& forall|k: int|
        #![trigger items[k]]
        0 <= k < items.len() ==> if k % 2 == 0 {
            items[k] matches Content::Text(t) && t@ == ls[k / 2]
        } else {
            items[k] matches Content::Element(e) && *e matches Element::LineBreak(_)
        }
}

impl Content {
    /// Creates either a [`Content::Text`] or [`Content::List`] from a string,
    /// converting newlines into line-break elements: with more than one line,
    /// the lines alternate with line breaks; with one line, that line (without
    /// its `\n` or `\r\n`) is the text; with none, the text is empty.
    pub fn from_string(s: String) -> (r: Content)
        ensures
            lines_of(s@).len() > 1 ==> (r matches Content::List(items) && is_line_list(items@, lines_of(s@))),
            lines_of(s@).len() == 1 ==> (r matches Content::Text(t) && t@ == lines_of(s@)[0]),
            lines_of(s@).len() == 0 ==> (r matches Content::Text(t) && t@ == Seq::<char>::empty()),
    {
        let ls = lines(s.as_str());
        let ghost lv = ls@.map_values(|l: String| l@);
        proof {
            assert(lv == lines_of(s@));
        }
        if ls.len() > 1 {
            let mut items: Vec<Content> = Vec::new();
            let mut k: usize = 0;
            while k < ls.len()
                invariant
                    lv == ls@.map_values(|l: String| l@),
                    lv == lines_of(s@),
                    lv.len() == ls@.len(),
                    ls@.len() > 1,
                    k <= ls@.len(),
                    k == 0 ==> items@.len() == 0,
                    k > 0 ==> items@.len() == 2 * k - 1,
                    forall|j: int|
                        #![trigger items@[j]]
                        0 <= j < items@.len() ==> if j % 2 == 0 {
                            items@[j] matches Content::Text(t) && t@ == lv[j / 2]
                        } else {
                            items@[j] matches Content::Element(e) && *e matches Element::LineBreak(_)
                        },
                decreases ls@.len() - k,
            {
                let ghost before = items@;
                if k > 0 {
                    items.push(
                        Content::Element(
                            Box::new(Element::LineBreak(LineBreakElement { data: Data(Vec::new()) })),
                        ),
                    );
                }
                let line = ls[k].clone();
                let ghost mid = items@;
                proof {
                    assert(line@ == lv[k as int]);
                    assert forall|j: int| 0 <= j < line@.len() implies line@[j] != '\n' by {
                        lemma_lines_have_no_newline(s@, k as int, j);
                    }
                }
                items.push(Content::Text(OneLineString::new_unchecked(line)));
                proof {
                    assert(lv[k as int] == ls@[k as int]@);
                    assert forall|j: int|
                        #![trigger items@[j]]
                        0 <= j < items@.len() implies if j % 2 == 0 {
                            items@[j] matches Content::Text(t) && t@ == lv[j / 2]
                        } else {
                            items@[j] matches Content::Element(e) && *e matches Element::LineBreak(_)
                        } by {
                        if j < before.len() {
                            assert(items@[j] == before[j]);
                        } else if j < mid.len() {
                            assert(j == 2 * k - 1);
                        } else {
                            assert(j == 2 * k);
                        }
                    }
                }
                k = k + 1;
            }
            Content::List(items)
        } else if ls.len() == 1 {
            let line = ls[0].clone();
            proof {
                assert(line@ == lv[0]);
                assert forall|j: int| 0 <= j < line@.len() implies line@[j] != '\n' by {
                    lemma_lines_have_no_newline(s@, 0, j);
                }
            }
            Content::Text(OneLineString::new_unchecked(line))
        } else {
            Content::Text(OneLineString::new_unchecked(String::new()))
        }
    }
}

} // verus!
