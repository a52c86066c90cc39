//! HTML text: escaping as the `maud` templating crate does it for text and
//! attribute values, and as `html_escape::encode_safe` does it.

use vstd::prelude::*;

verus! {

/// What `maud` writes for one character of text: `&`, `<`, `>` and `"` as
/// entities, anything else as it is.
pub open spec fn escaped_char(c: char) -> Seq<char> {
    if c == '&' {
        "&amp;"@
    } else if c == '<' {
        "&lt;"@
    } else if c == '>' {
        "&gt;"@
    } else if c == '"' {
        "&quot;"@
    } else {
        seq![c]
    }
}

/// `s` escaped for HTML text or a double-quoted attribute value.
pub open spec fn escape_html(s: Seq<char>) -> Seq<char>
    decreases s.len(),
{
    if s.len() == 0 {
        Seq::empty()
    } else {
        escape_html(s.drop_last()) + escaped_char(s.last())
    }
}

/// What `html_escape::encode_safe` writes for one character: `&`, `<`, `>`,
/// `"`, `'` and `/` as entities, anything else as it is.
pub open spec fn safe_char(c: char) -> Seq<char> {
    if c == '&' {
        "&amp;"@
    } else if c == '<' {
        "&lt;"@
    } else if c == '>' {
        "&gt;"@
    } else if c == '"' {
        "&quot;"@
    } else if c == '\'' {
        "&#x27;"@
    } else if c == '/' {
        "&#x2F;"@
    } else {
        seq![c]
    }
}

/// `s` with each character encoded by [`safe_char`].
pub open spec fn encode_safe_of(s: Seq<char>) -> Seq<char>
    decreases s.len(),
{
    if s.len() == 0 {
        Seq::empty()
    } else {
        encode_safe_of(s.drop_last()) + safe_char(s.last())
    }
}

/// Escaped text holds no markup: none of `<`, `>` and `"` is left in it,
/// so it can neither open or close a tag nor end an attribute value.
pub proof fn lemma_escaped_has_no_markup(s: Seq<char>)
    ensures
        forall|i: int|
            0 <= i < escape_html(s).len() ==> #[trigger] escape_html(s)[i] != '<' && escape_html(
                s,
            )[i] != '>' && escape_html(s)[i] != '"',
    decreases s.len(),
{
    if s.len() > 0 {
        lemma_escaped_has_no_markup(s.drop_last());
        let pre = escape_html(s.drop_last());
        let c = s.last();
        let e = escaped_char(c);
        reveal_strlit("&amp;");
        reveal_strlit("&lt;");
        reveal_strlit("&gt;");
        reveal_strlit("&quot;");
        assert forall|k: int| 0 <= k < e.len() implies #[trigger] e[k] != '<' && e[k] != '>'
            && e[k] != '"' by {}
        assert forall|i: int| 0 <= i < escape_html(s).len() implies #[trigger] escape_html(s)[i]
            != '<' && escape_html(s)[i] != '>' && escape_html(s)[i] != '"' by {
            if i < pre.len() {
                assert(escape_html(s)[i] == pre[i]);
            } else {
                assert(escape_html(s)[i] == e[i - pre.len()]);
            }
        }
    }
}

/// Text encoded by [`encode_safe_of`] holds none of `<`, `>`, `"`, `'` and
/// `/`.
pub proof fn lemma_encoded_is_safe(s: Seq<char>)
    ensures
        forall|i: int|
            0 <= i < encode_safe_of(s).len() ==> {
                let c = #[trigger] encode_safe_of(s)[i];
                c != '<' && c != '>' && c != '"' && c != '\'' && c != '/'
            },
    decreases s.len(),
{
    if s.len() > 0 {
        lemma_encoded_is_safe(s.drop_last());
        let pre = encode_safe_of(s.drop_last());
        let e = safe_char(s.last());
        reveal_strlit("&amp;");
        reveal_strlit("&lt;");
        reveal_strlit("&gt;");
        reveal_strlit("&quot;");
        reveal_strlit("&#x27;");
        reveal_strlit("&#x2F;");
        assert forall|k: int| 0 <= k < e.len() implies {
            let c = #[trigger] e[k];
            c != '<' && c != '>' && c != '"' && c != '\'' && c != '/'
        } by {}
        assert forall|i: int| 0 <= i < encode_safe_of(s).len() implies {
            let c = #[trigger] encode_safe_of(s)[i];
            c != '<' && c != '>' && c != '"' && c != '\'' && c != '/'
        } by {
            if i < pre.len() {
                assert(encode_safe_of(s)[i] == pre[i]);
            } else {
                assert(encode_safe_of(s)[i] == e[i - pre.len()]);
            }
        }
    }
}

/// Appends `s`, escaped, to `out`.
///
/// Trusted wrapper over `maud`'s `Render::render_to` for `str`, which calls
/// `escape::escape_to_string`: that function pushes `&amp;`, `&lt;`, `&gt;`
/// and `&quot;` for the bytes `&`, `<`, `>` and `"`, and every other byte as
/// it is. As those four are ASCII, this is [`escape_html`] on characters.
#[verifier::external_body]
pub(crate) fn push_escaped(out: &mut String, s: &str)
    ensures
        final(out)@ == old(out)@ + escape_html(s@),
{
    maud::Render::render_to(s, out);
}

/// `s` encoded with HTML entities for `&`, `<`, `>`, `"`, `'` and `/`.
///
/// Trusted wrapper over `html_escape::encode_safe`, whose source replaces
/// exactly those six bytes by `&amp;`, `&lt;`, `&gt;`, `&quot;`, `&#x27;` and
/// `&#x2F;` and copies every other byte: [`encode_safe_of`] on characters.
#[verifier::external_body]
pub(crate) fn encode_safe(s: &str) -> (r: String)
    ensures
        r@ == encode_safe_of(s@),
{
    html_escape::encode_safe(s).into_owned()
}

} // verus!
