//! Escaping of untrusted text for the place in the document where it lands.

use vstd::prelude::*;

verus! {

/// The kind of place that untrusted text is inserted into.
#[derive(Clone, Copy, Debug, PartialEq, Eq, Structural)]
pub enum Context {
    /// Ordinary element content, such as the title.
    Text,
    /// The inside of a `style` element.
    Style,
    /// The inside of a `script` element.
    Script,
    /// The value of an attribute between double quotes.
    Attribute,
}

/// What one character of text becomes in ordinary element content.
pub open spec fn text_entity(c: char) -> Seq<char> {
    if c == '&' {
        seq!['&', 'a', 'm', 'p', ';']
    } else if c == '<' {
        seq!['&', 'l', 't', ';']
    } else if c == '>' {
        seq!['&', 'g', 't', ';']
    } else {
        seq![c]
    }
}

/// Text with `&`, `<` and `>` replaced by their entities, and nothing else
/// changed.
pub open spec fn text_escaped(text: Seq<char>) -> Seq<char>
    decreases text.len(),
{
    if text.len() == 0 {
        Seq::<char>::empty()
    } else {
        text_escaped(text.drop_last()) + text_entity(text.last())
    }
}

/// What one character of text becomes in an attribute value between double
/// quotes.
pub open spec fn attribute_entity(c: char) -> Seq<char> {
    if c == '"' {
        seq!['&', 'q', 'u', 'o', 't', ';']
    } else {
        text_entity(c)
    }
}

/// Text with `&`, `<`, `>` and `"` replaced by their entities, and nothing
/// else changed.
pub open spec fn attribute_escaped(text: Seq<char>) -> Seq<char>
    decreases text.len(),
{
    if text.len() == 0 {
        Seq::<char>::empty()
    } else {
        attribute_escaped(text.drop_last()) + attribute_entity(text.last())
    }
}

/// The stylesheet text that `html_escape::encode_style` returns for `text`.
pub uninterp spec fn style_escaped(text: Seq<char>) -> Seq<char>;

/// The script text that `html_escape::encode_script` returns for `text`.
pub uninterp spec fn script_escaped(text: Seq<char>) -> Seq<char>;

/// Untrusted text as it enters the document in the given context.
pub open spec fn escaped(context: Context, text: Seq<char>) -> Seq<char> {
    match context {
        Context::Text => text_escaped(text),
        Context::Style => style_escaped(text),
        Context::Script => script_escaped(text),
        Context::Attribute => attribute_escaped(text),
    }
}

/// Calls `html_escape::encode_text`. Trusted: the result is the input with
/// each `&`, `<` and `>` replaced by `&amp;`, `&lt;` and `&gt;`.
#[verifier::external_body]
fn encode_text(text: &str) -> (out: String)
    ensures
        out@ == text_escaped(text@),
{
    html_escape::encode_text(text).into_owned()
}

/// Calls `html_escape::encode_double_quoted_attribute`. Trusted: the result
/// is the input with each `&`, `<`, `>` and `"` replaced by `&amp;`, `&lt;`,
/// `&gt;` and `&quot;`.
#[verifier::external_body]
fn encode_double_quoted_attribute(text: &str) -> (out: String)
    ensures
        out@ == attribute_escaped(text@),
{
    html_escape::encode_double_quoted_attribute(text).into_owned()
}

/// Calls `html_escape::encode_style`. Trusted: the result is a function of
/// the input alone; nothing more is claimed of it.
#[verifier::external_body]
fn encode_style(text: &str) -> (out: String)
    ensures
        out@ == style_escaped(text@),
{
    html_escape::encode_style(text).into_owned()
}

/// Calls `html_escape::encode_script`. Trusted: the result is a function of
/// the input alone; nothing more is claimed of it.
#[verifier::external_body]
fn encode_script(text: &str) -> (out: String)
    ensures
        out@ == script_escaped(text@),
{
    html_escape::encode_script(text).into_owned()
}

/// Escapes untrusted text for the context it is inserted into.
pub fn escape(context: Context, text: &str) -> (out: String)
    ensures
        out@ == escaped(context, text@),
{
    match context {
        Context::Text => encode_text(text),
        Context::Style => encode_style(text),
        Context::Script => encode_script(text),
        Context::Attribute => encode_double_quoted_attribute(text),
    }
}

/// Escaped text holds no `<` and no `>`: whatever the text, it cannot open or
/// close a tag in ordinary element content.
pub proof fn lemma_text_escaped_has_no_angle(text: Seq<char>)
    ensures
        forall|i: int|
            0 <= i < text_escaped(text).len() ==> text_escaped(text)[i] != '<' && text_escaped(
                text,
            )[i] != '>',
    decreases text.len(),
{
    if text.len() > 0 {
        lemma_text_escaped_has_no_angle(text.drop_last());
        let head = text_escaped(text.drop_last());
        let tail = text_entity(text.last());
        assert forall|i: int| 0 <= i < text_escaped(text).len() implies text_escaped(text)[i]
            != '<' && text_escaped(text)[i] != '>' by {
            if i < head.len() {
                assert(text_escaped(text)[i] == head[i]);
            } else {
                assert(text_escaped(text)[i] == tail[i - head.len()]);
            }
        }
    }
}

/// Escaping text that holds none of `&`, `<`, `>` changes nothing.
pub proof fn lemma_text_escaped_plain(text: Seq<char>)
    requires
        forall|i: int| 0 <= i < text.len() ==> text[i] != '&' && text[i] != '<' && text[i] != '>',
    ensures
        text_escaped(text) == text,
    decreases text.len(),
{
    if text.len() > 0 {
        lemma_text_escaped_plain(text.drop_last());
        assert(text.drop_last() + seq![text.last()] =~= text);
    } else {
        assert(text =~= Seq::<char>::empty());
    }
}

/// An escaped attribute value holds no `"`, no `<` and no `>`: whatever the
/// text, it cannot end the attribute or the tag that holds it.
pub proof fn lemma_attribute_escaped_has_no_quote(text: Seq<char>)
    ensures
        forall|i: int|
            0 <= i < attribute_escaped(text).len() ==> attribute_escaped(text)[i] != '"'
                && attribute_escaped(text)[i] != '<' && attribute_escaped(text)[i] != '>',
    decreases text.len(),
{
    if text.len() > 0 {
        lemma_attribute_escaped_has_no_quote(text.drop_last());
        let head = attribute_escaped(text.drop_last());
        let tail = attribute_entity(text.last());
        assert forall|i: int| 0 <= i < attribute_escaped(text).len() implies attribute_escaped(
            text,
        )[i] != '"' && attribute_escaped(text)[i] != '<' && attribute_escaped(text)[i]
            != '>' by {
            if i < head.len() {
                assert(attribute_escaped(text)[i] == head[i]);
            } else {
                assert(attribute_escaped(text)[i] == tail[i - head.len()]);
            }
        }
    }
}

} // verus!
