//! The last pass over an assembled document: minification by `html_minifier`.

use vstd::prelude::*;
use vstd::utf8::encode_utf8;

use crate::assembler::{
    assembled, blank, initial_state, lemma_blank_text_is_dropped,
    lemma_whitespace_does_not_matter, raw_text_mode, run_plan, Step,
};
use crate::error::ConvertError;

verus! {

/// Declares `html_minifier::HTMLMinifier`, the streaming minifier with its
/// own output buffer. Nothing inside it is seen here.
#[verifier::external_type_specification]
#[verifier::external_body]
pub struct ExHTMLMinifier(html_minifier::HTMLMinifier);

/// Declares `html_minifier::HTMLMinifierError`. Nothing inside it is seen
/// here.
#[verifier::external_type_specification]
#[verifier::external_body]
pub struct ExHTMLMinifierError(html_minifier::HTMLMinifierError);

/// The text that a minifier has been given since it was made, one `digest`
/// after the other. A minifier keeps no copy of it; the name stands for the
/// calls that brought the minifier to where it is, and all that it gives
/// later depends on them.
pub uninterp spec fn minifier_fed(minifier: html_minifier::HTMLMinifier) -> Seq<char>;

/// The switches of a minifier, in this order: remove comments, minify the
/// content of `code`, minify scripts, minify stylesheets.
pub uninterp spec fn minifier_switches(minifier: html_minifier::HTMLMinifier) -> Seq<bool>;

/// The bytes that `html_minifier::HTMLMinifier::into_html` returns after the
/// minifier was made with the given switches and given `html`; `None` where it
/// reports the input as incomplete.
pub uninterp spec fn minified(html: Seq<char>, switches: Seq<bool>) -> Option<Seq<u8>>;

/// The switches of this library: comments are removed, and what stands in
/// `code`, `script` and `style` elements is left as it is.
pub open spec fn preserving_switches() -> Seq<bool> {
    seq![true, false, false, false]
}

/// Calls `html_minifier::HTMLMinifier::new`. Trusted: the new minifier has
/// been given nothing and has every switch on.
#[verifier::external_body]
fn new_minifier() -> (minifier: html_minifier::HTMLMinifier)
    ensures
        minifier_fed(minifier) == Seq::<char>::empty(),
        minifier_switches(minifier) == seq![true, true, true, true],
{
    html_minifier::HTMLMinifier::new()
}

/// Calls `html_minifier::HTMLMinifier::set_minify_code`. Trusted: it sets the
/// second switch and nothing else. The switches are set before any text is
/// given, as the crate asks.
#[verifier::external_body]
fn set_minify_code(minifier: &mut html_minifier::HTMLMinifier, on: bool)
    requires
        minifier_fed(*old(minifier)).len() == 0,
        minifier_switches(*old(minifier)).len() == 4,
    ensures
        minifier_fed(*final(minifier)) == minifier_fed(*old(minifier)),
        minifier_switches(*final(minifier)) == minifier_switches(*old(minifier)).update(1, on),
{
    minifier.set_minify_code(on)
}

/// Calls `html_minifier::HTMLMinifier::set_minify_js`. Trusted: it sets the
/// third switch and nothing else.
#[verifier::external_body]
fn set_minify_js(minifier: &mut html_minifier::HTMLMinifier, on: bool)
    requires
        minifier_fed(*old(minifier)).len() == 0,
        minifier_switches(*old(minifier)).len() == 4,
    ensures
        minifier_fed(*final(minifier)) == minifier_fed(*old(minifier)),
        minifier_switches(*final(minifier)) == minifier_switches(*old(minifier)).update(2, on),
{
    minifier.set_minify_js(on)
}

/// Calls `html_minifier::HTMLMinifier::set_minify_css`. Trusted: it sets the
/// fourth switch and nothing else.
#[verifier::external_body]
fn set_minify_css(minifier: &mut html_minifier::HTMLMinifier, on: bool)
    requires
        minifier_fed(*old(minifier)).len() == 0,
        minifier_switches(*old(minifier)).len() == 4,
    ensures
        minifier_fed(*final(minifier)) == minifier_fed(*old(minifier)),
        minifier_switches(*final(minifier)) == minifier_switches(*old(minifier)).update(3, on),
{
    minifier.set_minify_css(on)
}

/// Calls `html_minifier::HTMLMinifier::digest`. Trusted: it succeeds, the
/// text is added to what the minifier has been given, and the switches stay.
/// It succeeds because the crate raises one error of its own, for incomplete
/// input, and only when the input is finished; any other comes from the
/// writer, which in an `HTMLMinifier` is a `Vec<u8>`.
#[verifier::external_body]
fn digest(minifier: &mut html_minifier::HTMLMinifier, text: &str) -> (outcome: Result<
    (),
    html_minifier::HTMLMinifierError,
>)
    ensures
        outcome is Ok,
        minifier_fed(*final(minifier)) == minifier_fed(*old(minifier)) + text@,
        minifier_switches(*final(minifier)) == minifier_switches(*old(minifier)),
{
    minifier.digest(text)
}

/// Calls `html_minifier::HTMLMinifier::into_html`. Trusted: the outcome is a
/// function of what the minifier was given and of its switches.
#[verifier::external_body]
fn into_html(minifier: html_minifier::HTMLMinifier) -> (outcome: Result<
    Vec<u8>,
    html_minifier::HTMLMinifierError,
>)
    ensures
        match outcome {
            Ok(bytes) => minified(minifier_fed(minifier), minifier_switches(minifier)) == Some(
                bytes@,
            ),
            Err(_) => minified(minifier_fed(minifier), minifier_switches(minifier)) is None,
        },
{
    minifier.into_html()
}

/// Turns the minifier's verdict into the library's: the bytes where it gave
/// some, `MinifierError` where it refused.
pub fn minify_outcome(outcome: Result<Vec<u8>, html_minifier::HTMLMinifierError>) -> (result:
    Result<Vec<u8>, ConvertError>)
    ensures
        match outcome {
            Ok(bytes) => result == Ok::<Vec<u8>, ConvertError>(bytes),
            Err(_) => result == Err::<Vec<u8>, ConvertError>(ConvertError::MinifierError),
        },
{
    match outcome {
        Ok(bytes) => Ok(bytes),
        Err(_) => Err(ConvertError::MinifierError),
    }
}

/// Minifies an assembled document. Comments and needless whitespace go; what
/// stands inside `pre`, `code`, `script` and `style` is not minified. The
/// bytes are the minifier's output for exactly this text and these switches;
/// where the minifier finds the text incomplete, the call fails with
/// `MinifierError`.
pub fn minify_html(html: &str) -> (result: Result<Vec<u8>, ConvertError>)
    ensures
        match minified(html@, preserving_switches()) {
            Some(bytes) => result matches Ok(out) && out@ == bytes,
            None => result == Err::<Vec<u8>, ConvertError>(ConvertError::MinifierError),
        },
{
    let mut minifier = new_minifier();
    set_minify_code(&mut minifier, false);
    set_minify_js(&mut minifier, false);
    set_minify_css(&mut minifier, false);
    assert(minifier_switches(minifier) =~= preserving_switches());
    match digest(&mut minifier, html) {
        Ok(()) => {
            assert(minifier_fed(minifier) =~= html@);
            minify_outcome(into_html(minifier))
        },
        Err(_) => Err(ConvertError::MinifierError),
    }
}

/// The minified bytes of the document that a plan gives, or the reason why
/// there are none.
pub open spec fn minified_plan(plan: Seq<Step>) -> Result<Seq<u8>, ConvertError> {
    match assembled(plan) {
        Err(e) => Err(e),
        Ok(text) => match minified(text, preserving_switches()) {
            Some(bytes) => Ok(bytes),
            None => Err(ConvertError::MinifierError),
        },
    }
}

/// Whitespace between the pieces of a document does not reach the minified
/// bytes: outside `script`, `style`, `pre` and `code`, two plans that differ
/// only in the whitespace that one instruction inserts are minified to the
/// same bytes.
pub proof fn lemma_whitespace_leaves_minified_bytes(
    before: Seq<Step>,
    one: Seq<char>,
    other: Seq<char>,
    after: Seq<Step>,
)
    requires
        blank(encode_utf8(one)),
        blank(encode_utf8(other)),
        run_plan(initial_state(), before) is Ok,
        !raw_text_mode(run_plan(initial_state(), before)->Ok_0.stack),
    ensures
        minified_plan(before + seq![Step::Trusted(one)] + after) == minified_plan(
            before + seq![Step::Trusted(other)] + after,
        ),
        minified_plan(before + seq![Step::Trusted(one)] + after) == minified_plan(before + after),
{
    lemma_whitespace_does_not_matter(before, one, other, after);
    lemma_blank_text_is_dropped(before, Step::Trusted(one), one, after);
}

} // verus!
