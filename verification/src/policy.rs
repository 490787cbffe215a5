//! The rules on the input file, the output file and the title.

use vstd::prelude::*;
use vstd::string::{StringExecFns, StringSliceAdditionalSpecFns};

use crate::error::ConvertError;

verus! {

/// What stands at the input path.
#[derive(Clone, Copy, Debug, PartialEq, Eq, Structural)]
pub enum InputKind {
    /// Nothing.
    Missing,
    /// A directory.
    Directory,
    /// Anything else.
    File,
}

/// What stands at the output path.
#[derive(Clone, Copy, Debug, PartialEq, Eq, Structural)]
pub enum OutputKind {
    /// Nothing.
    Absent,
    /// A plain file.
    File,
    /// Something that is not a plain file.
    Other,
}

/// An ASCII letter in lower case; any other byte unchanged.
pub open spec fn lowered(byte: u8) -> u8 {
    if 65 <= byte <= 90 {
        (byte + 32) as u8
    } else {
        byte
    }
}

/// Two byte strings that differ at most in the case of ASCII letters.
pub open spec fn same_ignoring_case(left: Seq<u8>, right: Seq<u8>) -> bool {
    &&& left.len() == right.len()
    &&& forall|i: int| 0 <= i < left.len() ==> lowered(left[i]) == lowered(right[i])
}

/// Whether a file with this extension, given without the dot, is Markdown.
pub open spec fn markdown_extension(extension: Seq<u8>) -> bool {
    same_ignoring_case(extension, "md".spec_bytes()) || same_ignoring_case(
        extension,
        "markdown".spec_bytes(),
    )
}

/// An ASCII letter in lower case; any other byte unchanged.
fn lower(byte: u8) -> (low: u8)
    ensures
        low == lowered(byte),
{
    if byte >= 65 && byte <= 90 {
        byte + 32
    } else {
        byte
    }
}

/// Compares two byte strings without regard to the case of ASCII letters.
fn equal_ignoring_case(left: &[u8], right: &[u8]) -> (same: bool)
    ensures
        same == same_ignoring_case(left@, right@),
{
    if left.len() != right.len() {
        return false;
    }
    let mut i: usize = 0;
    while i < left.len()
        invariant
            left@.len() == right@.len(),
            i <= left@.len(),
            forall|j: int| 0 <= j < i ==> lowered(left@[j]) == lowered(right@[j]),
        decreases left@.len() - i,
    {
        if lower(left[i]) != lower(right[i]) {
            return false;
        }
        i += 1;
    }
    true
}

/// Whether a file with this extension, given without the dot, is Markdown:
/// `md` or `markdown`, in any case.
pub fn is_markdown_extension(extension: &str) -> (markdown: bool)
    ensures
        markdown == markdown_extension(extension.spec_bytes()),
{
    let bytes = extension.as_bytes();
    equal_ignoring_case(bytes, "md".as_bytes()) || equal_ignoring_case(
        bytes,
        "markdown".as_bytes(),
    )
}

/// Whether the input is accepted.
pub open spec fn input_accepted(kind: InputKind, extension: Seq<u8>) -> bool {
    kind == InputKind::File && markdown_extension(extension)
}

/// Accepts an input that exists, is no directory and is named like Markdown;
/// any other fails with `InputError`.
pub fn check_input(kind: InputKind, extension: &str) -> (result: Result<(), ConvertError>)
    ensures
        result == if input_accepted(kind, extension.spec_bytes()) {
            Ok::<(), ConvertError>(())
        } else {
            Err::<(), ConvertError>(ConvertError::InputError)
        },
{
    match kind {
        InputKind::File => if is_markdown_extension(extension) {
            Ok(())
        } else {
            Err(ConvertError::InputError)
        },
        _ => Err(ConvertError::InputError),
    }
}

/// Whether the output may be written.
pub open spec fn output_accepted(kind: OutputKind, force: bool) -> bool {
    kind == OutputKind::Absent || (kind == OutputKind::File && force)
}

/// Accepts an output path where nothing stands, or where a plain file stands
/// and overwriting was allowed; any other fails with `OutputExistsError`.
pub fn check_output(kind: OutputKind, force: bool) -> (result: Result<(), ConvertError>)
    ensures
        result == if output_accepted(kind, force) {
            Ok::<(), ConvertError>(())
        } else {
            Err::<(), ConvertError>(ConvertError::OutputExistsError)
        },
{
    match kind {
        OutputKind::Absent => Ok(()),
        OutputKind::File => if force {
            Ok(())
        } else {
            Err(ConvertError::OutputExistsError)
        },
        OutputKind::Other => Err(ConvertError::OutputExistsError),
    }
}

/// The title of the document: the one that was asked for, else the name of
/// the input without its extension.
pub fn resolve_title(title: Option<String>, stem: &str) -> (resolved: String)
    ensures
        resolved@ == match title {
            Some(text) => text@,
            None => stem@,
        },
{
    match title {
        Some(text) => text,
        None => stem.to_owned(),
    }
}

/// The name of the output beside the input, where none was asked for: the
/// name of the input without its extension, and `.html`.
pub fn default_output_name(stem: &str) -> (name: String)
    ensures
        name@ == stem@ + ".html"@,
{
    let mut name = stem.to_owned();
    name.append(".html");
    name
}

} // verus!
