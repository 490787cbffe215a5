//! A whole conversion, from what was read to the bytes to write.

use vstd::prelude::*;
use vstd::utf8::encode_utf8;

use crate::assembler::{assemble, assembled};
use crate::assets::{
    decode, decoded, resolve_all, resolved_all, EmbeddedAssets, Loaded, Overrides, SourcesView,
};
use crate::config::Config;
use crate::error::{ConvertError, Origin};
use crate::minify::{minified, minify_html, preserving_switches};
use crate::plan::{
    document_plan, document_text, emission_plan, Document, DocumentView, Gates,
};
use crate::policy::{
    check_input, check_output, input_accepted, output_accepted, resolve_title, InputKind,
    OutputKind,
};
use crate::render::{render, rendered, RenderFlags};
use crate::sniff::{sniff, sniffed};

verus! {

/// All that a conversion reads, as the caller found it.
#[derive(Debug)]
pub struct Inputs {
    /// What stands at the input path.
    pub input_kind: InputKind,
    /// The extension of the input path, without the dot.
    pub extension: String,
    /// The name of the input without its extension.
    pub stem: String,
    /// What stands at the output path.
    pub output_kind: OutputKind,
    /// What reading the input gave.
    pub markdown: Loaded,
    /// What reading the files named in place of bundled assets gave.
    pub overrides: Overrides,
    /// The assets that ship with the program.
    pub embedded: EmbeddedAssets,
    /// The value of the generator line; it is escaped for its attribute.
    pub generator: String,
}

/// The Markdown source, where the input could be read and decoded.
pub open spec fn markdown_text(loaded: Loaded) -> Result<Seq<char>, ConvertError> {
    match decoded(Origin::Markdown, loaded) {
        Ok(Some(text)) => Ok(text),
        Ok(None) => Err(ConvertError::IOError(Origin::Markdown)),
        Err(e) => Err(e),
    }
}

/// The document of a conversion whose input gave `markdown` and whose
/// sources are `assets`: the title that was asked for or else the input's
/// name, the rendered fragment, and the gates that the fragment and the
/// settings open.
pub open spec fn document_of(
    config: Config,
    inputs: Inputs,
    markdown: Seq<char>,
    assets: SourcesView,
) -> DocumentView {
    let fragment = rendered(markdown, RenderFlags::of_conversion(config.no_safe).switches());
    let found = sniffed(encode_utf8(fragment), config.no_highlight, config.no_mathjax);
    DocumentView {
        title: match config.title {
            Some(text) => text@,
            None => inputs.stem@,
        },
        generator: inputs.generator@,
        gates: Gates {
            has_code: found.has_code,
            has_math: found.has_math,
            include_fonts: !config.no_cjk_fonts,
        },
        fragment,
        assets,
    }
}

/// The document before minification, or the first reason why there is none:
/// the input is refused, the output may not be written, the input cannot be
/// read as text, a file named in place of an asset cannot be read as text.
pub open spec fn converted(config: Config, inputs: Inputs) -> Result<Seq<char>, ConvertError> {
    if !input_accepted(inputs.input_kind, encode_utf8(inputs.extension@)) {
        Err(ConvertError::InputError)
    } else if !output_accepted(inputs.output_kind, config.force) {
        Err(ConvertError::OutputExistsError)
    } else {
        match markdown_text(inputs.markdown) {
            Err(e) => Err(e),
            Ok(markdown) => match resolved_all(inputs.embedded, inputs.overrides) {
                Err(e) => Err(e),
                Ok(assets) => assembled(
                    document_plan(document_of(config, inputs, markdown, assets)),
                ),
            },
        }
    }
}

/// Carries a conversion up to the assembled document, not yet minified.
pub fn convert(config: Config, inputs: Inputs) -> (result: Result<String, ConvertError>)
    ensures
        match converted(config, inputs) {
            Ok(text) => result matches Ok(html) && html@ == text,
            Err(e) => result == Err::<String, ConvertError>(e),
        },
{
    let Inputs {
        input_kind,
        extension,
        stem,
        output_kind,
        markdown,
        overrides,
        embedded,
        generator,
    } = inputs;
    match check_input(input_kind, extension.as_str()) {
        Ok(()) => {},
        Err(e) => {
            return Err(e);
        },
    }
    match check_output(output_kind, config.force) {
        Ok(()) => {},
        Err(e) => {
            return Err(e);
        },
    }
    let source = match decode(Origin::Markdown, markdown) {
        Ok(Some(text)) => text,
        Ok(None) => {
            return Err(ConvertError::IOError(Origin::Markdown));
        },
        Err(e) => {
            return Err(e);
        },
    };
    let fragment = render(source.as_str(), config.no_safe);
    let found = sniff(fragment.as_str(), config.no_highlight, config.no_mathjax);
    let assets = match resolve_all(&embedded, overrides) {
        Ok(assets) => assets,
        Err(e) => {
            return Err(e);
        },
    };
    let document = Document {
        title: resolve_title(config.title, stem.as_str()),
        generator,
        gates: Gates {
            has_code: found.has_code,
            has_math: found.has_math,
            include_fonts: !config.no_cjk_fonts,
        },
        fragment,
        assets,
    };
    assert(document@ == document_of(config, inputs, source@, assets@));
    let plan = emission_plan(&document);
    assemble(&plan)
}

/// The bytes of a conversion, or the reason why there are none: that of the
/// document before minification, else that the minifier refused it.
pub open spec fn ran(config: Config, inputs: Inputs) -> Result<Seq<u8>, ConvertError> {
    match converted(config, inputs) {
        Err(e) => Err(e),
        Ok(text) => match minified(text, preserving_switches()) {
            Some(bytes) => Ok(bytes),
            None => Err(ConvertError::MinifierError),
        },
    }
}

/// Runs a conversion on what the caller read and gives the bytes to write.
///
/// It fails, in this order, with `InputError` where the input is missing, a
/// directory or not named like Markdown; with `OutputExistsError` where the
/// output may not be written; with `IOError` or `EncodingError` where the
/// input or a file named in place of an asset cannot be read as text. Else
/// the document is assembled, which always succeeds, and minified: the bytes
/// that come back are the minifier's for that document, and the only failure
/// left is its `MinifierError`.
pub fn run(config: Config, inputs: Inputs) -> (result: Result<Vec<u8>, ConvertError>)
    ensures
        match ran(config, inputs) {
            Ok(bytes) => result matches Ok(out) && out@ == bytes,
            Err(e) => result == Err::<Vec<u8>, ConvertError>(e),
        },
{
    match convert(config, inputs) {
        Ok(html) => minify_html(html.as_str()),
        Err(e) => Err(e),
    }
}

/// A conversion whose files are in order always reaches the minifier: with
/// an accepted input and output, a readable input and readable sources, the
/// document is assembled, whatever the Markdown holds, and its text is the
/// one that `document_text` writes out.
pub proof fn lemma_conversion_assembles(config: Config, inputs: Inputs)
    requires
        input_accepted(inputs.input_kind, encode_utf8(inputs.extension@)),
        output_accepted(inputs.output_kind, config.force),
        markdown_text(inputs.markdown) is Ok,
        resolved_all(inputs.embedded, inputs.overrides) is Ok,
    ensures
        converted(config, inputs) == Ok::<Seq<char>, ConvertError>(
            document_text(
                document_of(
                    config,
                    inputs,
                    markdown_text(inputs.markdown)->Ok_0,
                    resolved_all(inputs.embedded, inputs.overrides)->Ok_0,
                ),
            ),
        ),
{
    crate::plan::lemma_document_text(
        document_of(
            config,
            inputs,
            markdown_text(inputs.markdown)->Ok_0,
            resolved_all(inputs.embedded, inputs.overrides)->Ok_0,
        ),
    );
}

/// An output that exists is never replaced without leave: whatever else
/// holds, a conversion whose output path is taken and which was not told to
/// overwrite a plain file there gives no bytes to write.
pub proof fn lemma_existing_output_is_kept(config: Config, inputs: Inputs)
    requires
        inputs.output_kind != OutputKind::Absent,
        !(inputs.output_kind == OutputKind::File && config.force),
    ensures
        ran(config, inputs) is Err,
        input_accepted(inputs.input_kind, encode_utf8(inputs.extension@)) ==> ran(config, inputs)
            == Err::<Seq<u8>, ConvertError>(ConvertError::OutputExistsError),
{
}

} // verus!
