//! The ways a conversion can fail.

use vstd::prelude::*;

use crate::assets::AssetSlot;

verus! {

/// The file whose content a failure is about.
#[derive(Clone, Copy, Debug, PartialEq, Eq, Structural)]
pub enum Origin {
    /// The Markdown source.
    Markdown,
    /// The file given in place of a bundled asset.
    Override(AssetSlot),
}

/// Why no document was produced.
#[derive(Clone, Copy, Debug, PartialEq, Eq, Structural)]
pub enum ConvertError {
    /// The input is missing, is a directory, or is not named like Markdown.
    InputError,
    /// The output exists and may not be replaced.
    OutputExistsError,
    /// A file that the document needs could not be read.
    IOError(Origin),
    /// A file that the document needs is not UTF-8 text.
    EncodingError(Origin),
    /// A closing tag did not match the innermost open element.
    StructuralError,
    /// The plan ended while elements were still open.
    UnterminatedDocumentError,
    /// The minifier found the assembled markup incomplete.
    MinifierError,
}

impl ConvertError {
    /// A one-line description for the user.
    pub fn message(&self) -> (text: String)
        ensures
            text@ == self.message_text(),
    {
        match self {
            ConvertError::InputError => "the input is not a readable Markdown file".to_owned(),
            ConvertError::OutputExistsError => "the output exists and may not be replaced".to_owned(),
            ConvertError::IOError(_) => "a file could not be read".to_owned(),
            ConvertError::EncodingError(_) => "a file is not UTF-8 text".to_owned(),
            ConvertError::StructuralError => "a closing tag does not match the open element".to_owned(),
            ConvertError::UnterminatedDocumentError => "the document ends with open elements".to_owned(),
            ConvertError::MinifierError => "the minifier found the markup incomplete".to_owned(),
        }
    }

    /// The text that `message` returns.
    pub open spec fn message_text(&self) -> Seq<char> {
        match self {
            ConvertError::InputError => "the input is not a readable Markdown file"@,
            ConvertError::OutputExistsError => "the output exists and may not be replaced"@,
            ConvertError::IOError(_) => "a file could not be read"@,
            ConvertError::EncodingError(_) => "a file is not UTF-8 text"@,
            ConvertError::StructuralError => "a closing tag does not match the open element"@,
            ConvertError::UnterminatedDocumentError => "the document ends with open elements"@,
            ConvertError::MinifierError => "the minifier found the markup incomplete"@,
        }
    }
}

} // verus!
