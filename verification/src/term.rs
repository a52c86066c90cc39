//! Terms (headword and/or reading), normalized strings, and dictionary
//! metadata.

use vstd::prelude::*;

verus! {

/// Whether `c` has the Unicode `White_Space` property, as `char::is_whitespace`
/// tests it: the controls tab to carriage return, space, next line,
/// no-break space, ogham space mark, the spaces U+2000 to U+200A, the line
/// and paragraph separators, narrow no-break space, medium mathematical
/// space and ideographic space.
pub open spec fn is_white_space(c: char) -> bool {
    ||| '\u{9}' <= c && c <= '\u{d}'
    ||| c == ' '
    ||| c == '\u{85}'
    ||| c == '\u{a0}'
    ||| c == '\u{1680}'
    ||| '\u{2000}' <= c && c <= '\u{200a}'
    ||| c == '\u{2028}'
    ||| c == '\u{2029}'
    ||| c == '\u{202f}'
    ||| c == '\u{205f}'
    ||| c == '\u{3000}'
}

/// `s` without its leading whitespace.
pub open spec fn trim_start_of(s: Seq<char>) -> Seq<char>
    decreases s.len(),
{
    if s.len() > 0 && is_white_space(s[0]) {
        trim_start_of(s.drop_first())
    } else {
        s
    }
}

/// `s` without its trailing whitespace.
pub open spec fn trim_end_of(s: Seq<char>) -> Seq<char>
    decreases s.len(),
{
    if s.len() > 0 && is_white_space(s.last()) {
        trim_end_of(s.drop_last())
    } else {
        s
    }
}

/// What `str::trim` leaves of a string: the string without its leading and
/// trailing whitespace.
pub open spec fn trimmed(s: Seq<char>) -> Seq<char> {
    trim_end_of(trim_start_of(s))
}

/// Removes leading and trailing whitespace.
///
/// Trusted wrapper over `str::trim`, which std documents as the slice of `s`
/// without the leading and trailing characters that have the Unicode
/// `White_Space` property: [`trimmed`].
///
/// Stated besides is that the result is no longer than `s`, which
/// [`lemma_trimmed_shape`] also proves.
#[verifier::external_body]
pub(crate) fn trim_str(s: &str) -> (r: &str)
    ensures
        r@ == trimmed(s@),
        r@.len() <= s@.len(),
{
    s.trim()
}

proof fn lemma_trim_start(s: Seq<char>)
    ensures
        trim_start_of(s).len() <= s.len(),
        trim_start_of(s).len() > 0 ==> !is_white_space(trim_start_of(s)[0]),
    decreases s.len(),
{
    if s.len() > 0 && is_white_space(s[0]) {
        lemma_trim_start(s.drop_first());
    }
}

proof fn lemma_trim_end(s: Seq<char>)
    ensures
        trim_end_of(s) == s.take(trim_end_of(s).len() as int),
        trim_end_of(s).len() <= s.len(),
        trim_end_of(s).len() > 0 ==> !is_white_space(trim_end_of(s).last()),
    decreases s.len(),
{
    if s.len() > 0 && is_white_space(s.last()) {
        lemma_trim_end(s.drop_last());
        let t = trim_end_of(s.drop_last());
        assert(s.drop_last().take(t.len() as int) =~= s.take(t.len() as int));
    } else {
        assert(s.take(s.len() as int) =~= s);
    }
}

/// A trimmed string is no longer than the string, and neither starts nor
/// ends with whitespace.
pub proof fn lemma_trimmed_shape(s: Seq<char>)
    ensures
        trimmed(s).len() <= s.len(),
        trimmed(s).len() > 0 ==> !is_white_space(trimmed(s)[0]) && !is_white_space(
            trimmed(s).last(),
        ),
{
    let u = trim_start_of(s);
    lemma_trim_start(s);
    lemma_trim_end(u);
    let t = trim_end_of(u);
    if t.len() > 0 {
        assert(t[0] == u.take(t.len() as int)[0]);
    }
}

/// Trimming twice is trimming once.
pub proof fn lemma_trimmed_idempotent(s: Seq<char>)
    ensures
        trimmed(trimmed(s)) == trimmed(s),
{
    let t = trimmed(s);
    lemma_trimmed_shape(s);
    if t.len() > 0 {
        assert(trim_start_of(t) == t);
        assert(trim_end_of(t) == t);
    } else {
        assert(trim_start_of(t) == t);
        assert(trim_end_of(t) == t);
    }
}

/// A string with leading and trailing whitespace removed, non-empty unless it
/// was built with [`NormString::new_unchecked`].
#[derive(Debug, PartialEq, Eq, Hash)]
pub struct NormString(String);

impl Clone for NormString {
    fn clone(&self) -> (r: Self)
        ensures
            r == *self,
    {
        NormString(self.0.clone())
    }
}

impl View for NormString {
    type V = Seq<char>;

    closed spec fn view(&self) -> Seq<char> {
        self.0@
    }
}

/// The normalized form of a string: its trimmed form, unless that is empty.
pub open spec fn normalized(s: Seq<char>) -> Option<Seq<char>> {
    if trimmed(s).len() == 0 {
        None
    } else {
        Some(trimmed(s))
    }
}

/// Whether `s` is already normalized: non-empty, with no leading or
/// trailing whitespace.
pub open spec fn is_normalized(s: Seq<char>) -> bool {
    normalized(s) == Some(s)
}

/// Normalizing is idempotent, and a normalized string is non-empty and
/// neither starts nor ends with whitespace.
pub proof fn lemma_normalized(s: Seq<char>)
    ensures
        normalized(s) matches Some(n) ==> is_normalized(n) && n.len() > 0 && !is_white_space(n[0])
            && !is_white_space(n.last()),
{
    lemma_trimmed_idempotent(s);
    lemma_trimmed_shape(s);
}

impl NormString {
    /// Whether this string is normalized (see [`is_normalized`]); every value
    /// that [`NormString::new`] makes is.
    pub open spec fn wf(self) -> bool {
        is_normalized(self@)
    }

    /// Trims `string`, and returns `None` if nothing is left.
    pub fn new(string: &str) -> (r: Option<NormString>)
        ensures
            match r {
                Some(n) => normalized(string@) == Some(n@) && n.wf(),
                None => normalized(string@) is None,
            },
    {
        proof {
            lemma_normalized(string@);
        }
        let t = trim_str(string);
        if t.is_empty() {
            None
        } else {
            Some(NormString(t.to_owned()))
        }
    }

    /// Wraps `string` without trimming it or checking that it is non-empty.
    pub fn new_unchecked(string: String) -> (r: NormString)
        ensures
            r@ == string@,
    {
        NormString(string)
    }

    /// The underlying string.
    pub fn as_str(&self) -> (r: &str)
        ensures
            r@ == self@,
    {
        self.0.as_str()
    }

    /// Takes the underlying string out of this value.
    pub fn into_inner(self) -> (r: String)
        ensures
            r@ == self@,
    {
        self.0
    }
}

/// Key for a dictionary entry: a headword, a reading, or both.
#[derive(Debug, PartialEq, Eq, Hash)]
pub enum Term {
    Full { headword: NormString, reading: NormString },
    Headword { headword: NormString },
    Reading { reading: NormString },
}

impl Clone for Term {
    fn clone(&self) -> (r: Self)
        ensures
            r == *self,
    {
        match self {
            Term::Full { headword, reading } => Term::Full {
                headword: headword.clone(),
                reading: reading.clone(),
            },
            Term::Headword { headword } => Term::Headword { headword: headword.clone() },
            Term::Reading { reading } => Term::Reading { reading: reading.clone() },
        }
    }
}

impl Term {
    /// Whether the parts of this term are normalized strings.
    pub open spec fn wf(self) -> bool {
        &&& (self.headword_of() matches Some(h) ==> is_normalized(h))
        &&& (self.reading_of() matches Some(r) ==> is_normalized(r))
    }

    /// The headword of this term, if it has one.
    pub open spec fn headword_of(self) -> Option<Seq<char>> {
        match self {
            Term::Full { headword, .. } => Some(headword@),
            Term::Headword { headword } => Some(headword@),
            Term::Reading { .. } => None,
        }
    }

    /// The reading of this term, if it has one.
    pub open spec fn reading_of(self) -> Option<Seq<char>> {
        match self {
            Term::Full { reading, .. } => Some(reading@),
            Term::Reading { reading } => Some(reading@),
            Term::Headword { .. } => None,
        }
    }
}

/// The character sequence of an optional normalized string.
pub open spec fn opt_view(o: Option<NormString>) -> Option<Seq<char>> {
    match o {
        Some(n) => Some(n@),
        None => None,
    }
}

/// A value that can become one part (headword or reading) of a [`Term`].
pub trait TermPart: Sized {
    type IntoTerm;

    /// The normalized string this value stands for, if any.
    spec fn part(self) -> Option<Seq<char>>;

    /// Whether `t` is the term with this value as its only part, headword
    /// (`as_headword`) or reading.
    spec fn is_term_of(self, as_headword: bool, t: Self::IntoTerm) -> bool;

    fn try_into_non_empty_string(self) -> (r: Option<NormString>)
        ensures
            opt_view(r) == self.part(),
    ;

    fn into_term_with_headword(self) -> (r: Self::IntoTerm)
        ensures
            self.is_term_of(true, r),
    ;

    fn into_term_with_reading(self) -> (r: Self::IntoTerm)
        ensures
            self.is_term_of(false, r),
    ;
}

/// Whether `t` is a one-part term whose headword (or reading, when
/// `as_headword` is false) is `s`.
pub open spec fn single_part(t: Term, as_headword: bool, s: Seq<char>) -> bool {
    if as_headword {
        t.headword_of() == Some(s) && t.reading_of() is None
    } else {
        t.reading_of() == Some(s) && t.headword_of() is None
    }
}

/// Whether `t` is the one-part term built from `p`, or `None` when `p` is.
pub open spec fn opt_single_part(t: Option<Term>, as_headword: bool, p: Option<Seq<char>>) -> bool {
    match (t, p) {
        (Some(t), Some(s)) => single_part(t, as_headword, s),
        (None, None) => true,
        _ => false,
    }
}

fn headword_term(n: NormString) -> (t: Term)
    ensures
        single_part(t, true, n@),
{
    Term::Headword { headword: n }
}

fn reading_term(n: NormString) -> (t: Term)
    ensures
        single_part(t, false, n@),
{
    Term::Reading { reading: n }
}

fn opt_term(o: Option<NormString>, as_headword: bool) -> (t: Option<Term>)
    ensures
        opt_single_part(t, as_headword, opt_view(o)),
{
    match o {
        Some(n) => if as_headword {
            Some(headword_term(n))
        } else {
            Some(reading_term(n))
        },
        None => None,
    }
}

impl TermPart for NormString {
    type IntoTerm = Term;

    open spec fn part(self) -> Option<Seq<char>> {
        Some(self@)
    }

    open spec fn is_term_of(self, as_headword: bool, t: Term) -> bool {
        single_part(t, as_headword, self@)
    }

    fn try_into_non_empty_string(self) -> (r: Option<NormString>) {
        Some(self)
    }

    fn into_term_with_headword(self) -> (r: Term) {
        headword_term(self)
    }

    fn into_term_with_reading(self) -> (r: Term) {
        reading_term(self)
    }
}

impl TermPart for Option<NormString> {
    type IntoTerm = Option<Term>;

    open spec fn part(self) -> Option<Seq<char>> {
        opt_view(self)
    }

    open spec fn is_term_of(self, as_headword: bool, t: Option<Term>) -> bool {
        opt_single_part(t, as_headword, opt_view(self))
    }

    fn try_into_non_empty_string(self) -> (r: Option<NormString>) {
        self
    }

    fn into_term_with_headword(self) -> (r: Option<Term>) {
        opt_term(self, true)
    }

    fn into_term_with_reading(self) -> (r: Option<Term>) {
        opt_term(self, false)
    }
}

impl TermPart for String {
    type IntoTerm = Option<Term>;

    open spec fn part(self) -> Option<Seq<char>> {
        normalized(self@)
    }

    open spec fn is_term_of(self, as_headword: bool, t: Option<Term>) -> bool {
        opt_single_part(t, as_headword, normalized(self@))
    }

    fn try_into_non_empty_string(self) -> (r: Option<NormString>) {
        NormString::new(self.as_str())
    }

    fn into_term_with_headword(self) -> (r: Option<Term>) {
        opt_term(NormString::new(self.as_str()), true)
    }

    fn into_term_with_reading(self) -> (r: Option<Term>) {
        opt_term(NormString::new(self.as_str()), false)
    }
}

impl TermPart for Option<String> {
    type IntoTerm = Option<Term>;

    open spec fn part(self) -> Option<Seq<char>> {
        match self {
            Some(s) => normalized(s@),
            None => None,
        }
    }

    open spec fn is_term_of(self, as_headword: bool, t: Option<Term>) -> bool {
        opt_single_part(t, as_headword, self.part())
    }

    fn try_into_non_empty_string(self) -> (r: Option<NormString>) {
        match self {
            Some(s) => NormString::new(s.as_str()),
            None => None,
        }
    }

    fn into_term_with_headword(self) -> (r: Option<Term>) {
        match self {
            Some(s) => opt_term(NormString::new(s.as_str()), true),
            None => None,
        }
    }

    fn into_term_with_reading(self) -> (r: Option<Term>) {
        match self {
            Some(s) => opt_term(NormString::new(s.as_str()), false),
            None => None,
        }
    }
}

impl<'a> TermPart for &'a str {
    type IntoTerm = Option<Term>;

    open spec fn part(self) -> Option<Seq<char>> {
        normalized(self@)
    }

    open spec fn is_term_of(self, as_headword: bool, t: Option<Term>) -> bool {
        opt_single_part(t, as_headword, normalized(self@))
    }

    fn try_into_non_empty_string(self) -> (r: Option<NormString>) {
        NormString::new(self)
    }

    fn into_term_with_headword(self) -> (r: Option<Term>) {
        opt_term(NormString::new(self), true)
    }

    fn into_term_with_reading(self) -> (r: Option<Term>) {
        opt_term(NormString::new(self), false)
    }
}

impl Term {
    /// Builds a term from a headword and a reading; `None` when neither
    /// normalizes to a non-empty string.
    pub fn new<H: TermPart, R: TermPart>(headword: H, reading: R) -> (r: Option<Term>)
        ensures
            match r {
                Some(t) => t.headword_of() == headword.part() && t.reading_of() == reading.part()
                    && (headword.part() is Some || reading.part() is Some),
                None => headword.part() is None && reading.part() is None,
            },
    {
        match (headword.try_into_non_empty_string(), reading.try_into_non_empty_string()) {
            (Some(headword), Some(reading)) => Some(Term::Full { headword, reading }),
            (Some(headword), None) => Some(Term::Headword { headword }),
            (None, Some(reading)) => Some(Term::Reading { reading }),
            (None, None) => None,
        }
    }

    /// The term with only this headword.
    pub fn from_headword<T: TermPart>(headword: T) -> (r: T::IntoTerm)
        ensures
            headword.is_term_of(true, r),
    {
        headword.into_term_with_headword()
    }

    /// The term with only this reading.
    pub fn from_reading<T: TermPart>(reading: T) -> (r: T::IntoTerm)
        ensures
            reading.is_term_of(false, r),
    {
        reading.into_term_with_reading()
    }

    /// The headword, if this term has one.
    pub fn headword(&self) -> (r: Option<&NormString>)
        ensures
            match r {
                Some(n) => self.headword_of() == Some(n@),
                None => self.headword_of() is None,
            },
    {
        match self {
            Term::Full { headword, .. } => Some(headword),
            Term::Headword { headword } => Some(headword),
            Term::Reading { .. } => None,
        }
    }

    /// The reading, if this term has one.
    pub fn reading(&self) -> (r: Option<&NormString>)
        ensures
            match r {
                Some(n) => self.reading_of() == Some(n@),
                None => self.reading_of() is None,
            },
    {
        match self {
            Term::Full { reading, .. } => Some(reading),
            Term::Reading { reading } => Some(reading),
            Term::Headword { .. } => None,
        }
    }

    /// The headword, to change in place, if this term has one.
    pub fn headword_mut(&mut self) -> (r: Option<&mut NormString>)
        ensures
            r is Some <==> old(self).headword_of() is Some,
            r matches Some(h) ==> old(self).headword_of() == Some(h@) && final(self).headword_of()
                == Some(final(h)@) && final(self).reading_of() == old(self).reading_of(),
            r is None ==> *final(self) == *old(self),
    {
        match self {
            Term::Full { headword, .. } => Some(headword),
            Term::Headword { headword } => Some(headword),
            Term::Reading { .. } => None,
        }
    }

    /// The reading, to change in place, if this term has one.
    pub fn reading_mut(&mut self) -> (r: Option<&mut NormString>)
        ensures
            r is Some <==> old(self).reading_of() is Some,
            r matches Some(h) ==> old(self).reading_of() == Some(h@) && final(self).reading_of()
                == Some(final(h)@) && final(self).headword_of() == old(self).headword_of(),
            r is None ==> *final(self) == *old(self),
    {
        match self {
            Term::Full { reading, .. } => Some(reading),
            Term::Reading { reading } => Some(reading),
            Term::Headword { .. } => None,
        }
    }

    /// Replaces the headword, returning the previous one; a reading-only term
    /// becomes a full term.
    pub fn set_headword(&mut self, new: NormString) -> (r: Option<NormString>)
        ensures
            final(self).headword_of() == Some(new@),
            final(self).reading_of() == old(self).reading_of(),
            opt_view(r) == old(self).headword_of(),
    {
        let mut cur = Term::Headword { headword: NormString::new_unchecked(String::new()) };
        std::mem::swap(&mut cur, self);
        match cur {
            Term::Full { headword, reading } => {
                *self = Term::Full { headword: new, reading };
                Some(headword)
            },
            Term::Headword { headword } => {
                *self = Term::Headword { headword: new };
                Some(headword)
            },
            Term::Reading { reading } => {
                *self = Term::Full { headword: new, reading };
                None
            },
        }
    }

    /// Replaces the reading, returning the previous one; a headword-only term
    /// becomes a full term.
    pub fn set_reading(&mut self, new: NormString) -> (r: Option<NormString>)
        ensures
            final(self).reading_of() == Some(new@),
            final(self).headword_of() == old(self).headword_of(),
            opt_view(r) == old(self).reading_of(),
    {
        let mut cur = Term::Headword { headword: NormString::new_unchecked(String::new()) };
        std::mem::swap(&mut cur, self);
        match cur {
            Term::Full { headword, reading } => {
                *self = Term::Full { headword, reading: new };
                Some(reading)
            },
            Term::Headword { headword } => {
                *self = Term::Full { headword, reading: new };
                None
            },
            Term::Reading { reading } => {
                *self = Term::Reading { reading: new };
                Some(reading)
            },
        }
    }

    /// Takes the headword out of this term, if it has one.
    pub fn take_headword(self) -> (r: Option<NormString>)
        ensures
            opt_view(r) == self.headword_of(),
    {
        match self {
            Term::Full { headword, .. } => Some(headword),
            Term::Headword { headword } => Some(headword),
            Term::Reading { .. } => None,
        }
    }

    /// Takes the reading out of this term, if it has one.
    pub fn take_reading(self) -> (r: Option<NormString>)
        ensures
            opt_view(r) == self.reading_of(),
    {
        match self {
            Term::Full { reading, .. } => Some(reading),
            Term::Reading { reading } => Some(reading),
            Term::Headword { .. } => None,
        }
    }

    /// Splits this term into its headword and its reading.
    pub fn into_parts(self) -> (r: (Option<NormString>, Option<NormString>))
        ensures
            opt_view(r.0) == self.headword_of(),
            opt_view(r.1) == self.reading_of(),
    {
        match self {
            Term::Full { headword, reading } => (Some(headword), Some(reading)),
            Term::Headword { headword } => (Some(headword), None),
            Term::Reading { reading } => (None, Some(reading)),
        }
    }
}

/// Whether two optional normalized strings hold the same text.
fn same_part(a: Option<&NormString>, b: Option<&NormString>) -> (r: bool)
    ensures
        r == (match (a, b) {
            (Some(x), Some(y)) => x@ == y@,
            (None, None) => true,
            _ => false,
        }),
{
    match (a, b) {
        (Some(x), Some(y)) => crate::text::str_eq(x.as_str(), y.as_str()),
        (None, None) => true,
        _ => false,
    }
}

impl Term {
    /// Whether two terms have the same headword and the same reading.
    pub open spec fn same_as(self, other: Term) -> bool {
        self.headword_of() == other.headword_of() && self.reading_of() == other.reading_of()
    }

    /// Whether this term has the same headword and reading as `other`.
    pub fn same(&self, other: &Term) -> (r: bool)
        ensures
            r == self.same_as(*other),
    {
        same_part(self.headword(), other.headword()) && same_part(self.reading(), other.reading())
    }
}

/// Every term has a headword or a reading.
pub proof fn lemma_term_has_part(t: Term)
    ensures
        t.headword_of() is Some || t.reading_of() is Some,
{
}

/// Which format a dictionary was imported from.
#[derive(Debug, Clone, Copy, PartialEq, Eq, Hash, Structural)]
pub enum DictionaryKind {
    Yomitan,
    YomichanAudio,
}

/// Descriptive metadata of a dictionary.
#[derive(Debug, Clone, PartialEq, Eq)]
pub struct DictionaryMeta {
    pub kind: DictionaryKind,
    pub name: String,
    pub version: Option<String>,
    pub description: Option<String>,
    pub url: Option<String>,
    pub attribution: Option<String>,
}

impl DictionaryMeta {
    /// Metadata with only a kind and a name.
    pub fn new(kind: DictionaryKind, name: String) -> (r: DictionaryMeta)
        ensures
            r.kind == kind,
            r.name@ == name@,
            r.version is None,
            r.description is None,
            r.url is None,
            r.attribution is None,
    {
        DictionaryMeta { kind, name, version: None, description: None, url: None, attribution: None }
    }
}

} // verus!
