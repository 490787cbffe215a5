//! The bundled resources of a document and where their text comes from.

use vstd::prelude::*;
use vstd::utf8::{decode_utf8, valid_utf8};

use crate::error::{ConvertError, Origin};

verus! {

/// One independently replaceable resource of the final document.
#[derive(Clone, Copy, Debug, PartialEq, Eq, Structural)]
pub enum AssetSlot {
    BaseStylesheet,
    CjkFontStylesheet,
    CjkMonoFontStylesheet,
    HighlightScript,
    HighlightStylesheet,
    MathConfigScript,
    MathScript,
    WebfontLoaderScript,
}

/// The text bound to a slot for one conversion.
#[derive(Clone, Debug)]
pub enum AssetSource {
    /// The text that ships with the program. It is inserted as it is.
    Embedded(String),
    /// The text of a file that the user named. It is escaped on insertion.
    Override(String),
}

/// A source as the contracts see it.
pub enum SourceView {
    Embedded(Seq<char>),
    Override(Seq<char>),
}

impl View for AssetSource {
    type V = SourceView;

    open spec fn view(&self) -> SourceView {
        match self {
            AssetSource::Embedded(text) => SourceView::Embedded(text@),
            AssetSource::Override(text) => SourceView::Override(text@),
        }
    }
}

/// What became of reading a file.
#[derive(Debug)]
pub enum Loaded {
    /// No file was named.
    Absent,
    /// The file was named and could not be read.
    Unreadable,
    /// The bytes of the file.
    Bytes(Vec<u8>),
}

/// The texts that ship with the program, one for each slot.
#[derive(Clone, Debug)]
pub struct EmbeddedAssets {
    pub base_stylesheet: String,
    pub cjk_font_stylesheet: String,
    pub cjk_mono_font_stylesheet: String,
    pub highlight_script: String,
    pub highlight_stylesheet: String,
    pub math_config_script: String,
    pub math_script: String,
    pub webfont_loader_script: String,
}

impl EmbeddedAssets {
    /// The text that ships for a slot.
    pub open spec fn text_of(&self, slot: AssetSlot) -> Seq<char> {
        match slot {
            AssetSlot::BaseStylesheet => self.base_stylesheet@,
            AssetSlot::CjkFontStylesheet => self.cjk_font_stylesheet@,
            AssetSlot::CjkMonoFontStylesheet => self.cjk_mono_font_stylesheet@,
            AssetSlot::HighlightScript => self.highlight_script@,
            AssetSlot::HighlightStylesheet => self.highlight_stylesheet@,
            AssetSlot::MathConfigScript => self.math_config_script@,
            AssetSlot::MathScript => self.math_script@,
            AssetSlot::WebfontLoaderScript => self.webfont_loader_script@,
        }
    }

    /// The text that ships for a slot.
    pub fn get(&self, slot: AssetSlot) -> (text: &str)
        ensures
            text@ == self.text_of(slot),
    {
        match slot {
            AssetSlot::BaseStylesheet => self.base_stylesheet.as_str(),
            AssetSlot::CjkFontStylesheet => self.cjk_font_stylesheet.as_str(),
            AssetSlot::CjkMonoFontStylesheet => self.cjk_mono_font_stylesheet.as_str(),
            AssetSlot::HighlightScript => self.highlight_script.as_str(),
            AssetSlot::HighlightStylesheet => self.highlight_stylesheet.as_str(),
            AssetSlot::MathConfigScript => self.math_config_script.as_str(),
            AssetSlot::MathScript => self.math_script.as_str(),
            AssetSlot::WebfontLoaderScript => self.webfont_loader_script.as_str(),
        }
    }
}

/// Calls `String::from_utf8`. Trusted: it gives a string exactly for valid
/// UTF-8, and the string is then the text that the bytes encode.
#[verifier::external_body]
fn text_from_utf8(bytes: Vec<u8>) -> (text: Option<String>)
    ensures
        match text {
            Some(s) => valid_utf8(bytes@) && s@ == decode_utf8(bytes@),
            None => !valid_utf8(bytes@),
        },
{
    String::from_utf8(bytes).ok()
}

/// The text of what a file gave: `None` where no file was named, `IOError`
/// where it could not be read, `EncodingError` where its bytes are not UTF-8.
pub open spec fn decoded(origin: Origin, loaded: Loaded) -> Result<Option<Seq<char>>, ConvertError> {
    match loaded {
        Loaded::Absent => Ok(None),
        Loaded::Unreadable => Err(ConvertError::IOError(origin)),
        Loaded::Bytes(bytes) => if valid_utf8(bytes@) {
            Ok(Some(decode_utf8(bytes@)))
        } else {
            Err(ConvertError::EncodingError(origin))
        },
    }
}

/// The source of a slot: the text that ships with the program where no file
/// was named, else the text of the file.
pub open spec fn resolved(slot: AssetSlot, embedded: Seq<char>, loaded: Loaded) -> Result<
    SourceView,
    ConvertError,
> {
    match decoded(Origin::Override(slot), loaded) {
        Ok(None) => Ok(SourceView::Embedded(embedded)),
        Ok(Some(text)) => Ok(SourceView::Override(text)),
        Err(e) => Err(e),
    }
}

/// Reads what a file gave as text: the decoded text of its bytes, `IOError`
/// where it could not be read, `EncodingError` where its bytes are not UTF-8.
/// `None` where no file was named.
pub fn decode(origin: Origin, loaded: Loaded) -> (result: Result<Option<String>, ConvertError>)
    ensures
        match decoded(origin, loaded) {
            Ok(None) => result matches Ok(None),
            Ok(Some(text)) => result matches Ok(Some(s)) && s@ == text,
            Err(e) => result == Err::<Option<String>, ConvertError>(e),
        },
{
    match loaded {
        Loaded::Absent => Ok(None),
        Loaded::Unreadable => Err(ConvertError::IOError(origin)),
        Loaded::Bytes(bytes) => match text_from_utf8(bytes) {
            Some(text) => Ok(Some(text)),
            None => Err(ConvertError::EncodingError(origin)),
        },
    }
}

/// Binds a slot to its source. Where no file was named for it, that is the
/// text that ships with the program; else the text of the file, which must be
/// readable and UTF-8.
pub fn resolve(slot: AssetSlot, embedded: &str, loaded: Loaded) -> (result: Result<
    AssetSource,
    ConvertError,
>)
    ensures
        match resolved(slot, embedded@, loaded) {
            Ok(source) => result matches Ok(s) && s@ == source,
            Err(e) => result == Err::<AssetSource, ConvertError>(e),
        },
{
    match decode(Origin::Override(slot), loaded) {
        Ok(None) => Ok(AssetSource::Embedded(embedded.to_owned())),
        Ok(Some(text)) => Ok(AssetSource::Override(text)),
        Err(e) => Err(e),
    }
}

/// The source bound to each slot for one conversion.
#[derive(Clone, Debug)]
pub struct ResolvedAssets {
    pub base_stylesheet: AssetSource,
    pub cjk_font_stylesheet: AssetSource,
    pub cjk_mono_font_stylesheet: AssetSource,
    pub highlight_script: AssetSource,
    pub highlight_stylesheet: AssetSource,
    pub math_config_script: AssetSource,
    pub math_script: AssetSource,
    pub webfont_loader_script: AssetSource,
}

/// The sources of a conversion as the contracts see them.
pub struct SourcesView {
    pub base_stylesheet: SourceView,
    pub cjk_font_stylesheet: SourceView,
    pub cjk_mono_font_stylesheet: SourceView,
    pub highlight_script: SourceView,
    pub highlight_stylesheet: SourceView,
    pub math_config_script: SourceView,
    pub math_script: SourceView,
    pub webfont_loader_script: SourceView,
}

impl SourcesView {
    /// The source bound to a slot.
    pub open spec fn source_of(self, slot: AssetSlot) -> SourceView {
        match slot {
            AssetSlot::BaseStylesheet => self.base_stylesheet,
            AssetSlot::CjkFontStylesheet => self.cjk_font_stylesheet,
            AssetSlot::CjkMonoFontStylesheet => self.cjk_mono_font_stylesheet,
            AssetSlot::HighlightScript => self.highlight_script,
            AssetSlot::HighlightStylesheet => self.highlight_stylesheet,
            AssetSlot::MathConfigScript => self.math_config_script,
            AssetSlot::MathScript => self.math_script,
            AssetSlot::WebfontLoaderScript => self.webfont_loader_script,
        }
    }
}

impl View for ResolvedAssets {
    type V = SourcesView;

    open spec fn view(&self) -> SourcesView {
        SourcesView {
            base_stylesheet: self.base_stylesheet@,
            cjk_font_stylesheet: self.cjk_font_stylesheet@,
            cjk_mono_font_stylesheet: self.cjk_mono_font_stylesheet@,
            highlight_script: self.highlight_script@,
            highlight_stylesheet: self.highlight_stylesheet@,
            math_config_script: self.math_config_script@,
            math_script: self.math_script@,
            webfont_loader_script: self.webfont_loader_script@,
        }
    }
}

impl ResolvedAssets {
    /// The source bound to a slot.
    pub fn get(&self, slot: AssetSlot) -> (source: &AssetSource)
        ensures
            source@ == self@.source_of(slot),
    {
        match slot {
            AssetSlot::BaseStylesheet => &self.base_stylesheet,
            AssetSlot::CjkFontStylesheet => &self.cjk_font_stylesheet,
            AssetSlot::CjkMonoFontStylesheet => &self.cjk_mono_font_stylesheet,
            AssetSlot::HighlightScript => &self.highlight_script,
            AssetSlot::HighlightStylesheet => &self.highlight_stylesheet,
            AssetSlot::MathConfigScript => &self.math_config_script,
            AssetSlot::MathScript => &self.math_script,
            AssetSlot::WebfontLoaderScript => &self.webfont_loader_script,
        }
    }
}

/// What reading the files that the user named in place of bundled assets gave.
#[derive(Debug)]
pub struct Overrides {
    pub css: Loaded,
    pub highlight_js: Loaded,
    pub highlight_css: Loaded,
    pub mathjax_js: Loaded,
}

/// The sources of a conversion. The base stylesheet, the highlight script,
/// the highlight stylesheet and the math script can be replaced by a file;
/// the first of them, in this order, that cannot be read or decoded fails the
/// whole. The other slots hold what ships with the program.
pub open spec fn resolved_all(embedded: EmbeddedAssets, overrides: Overrides) -> Result<
    SourcesView,
    ConvertError,
> {
    let base = resolved(
        AssetSlot::BaseStylesheet,
        embedded.text_of(AssetSlot::BaseStylesheet),
        overrides.css,
    );
    let script = resolved(
        AssetSlot::HighlightScript,
        embedded.text_of(AssetSlot::HighlightScript),
        overrides.highlight_js,
    );
    let style = resolved(
        AssetSlot::HighlightStylesheet,
        embedded.text_of(AssetSlot::HighlightStylesheet),
        overrides.highlight_css,
    );
    let math = resolved(
        AssetSlot::MathScript,
        embedded.text_of(AssetSlot::MathScript),
        overrides.mathjax_js,
    );
    if base is Err {
        Err(base->Err_0)
    } else if script is Err {
        Err(script->Err_0)
    } else if style is Err {
        Err(style->Err_0)
    } else if math is Err {
        Err(math->Err_0)
    } else {
        Ok(
            SourcesView {
                base_stylesheet: base->Ok_0,
                cjk_font_stylesheet: SourceView::Embedded(embedded.cjk_font_stylesheet@),
                cjk_mono_font_stylesheet: SourceView::Embedded(embedded.cjk_mono_font_stylesheet@),
                highlight_script: script->Ok_0,
                highlight_stylesheet: style->Ok_0,
                math_config_script: SourceView::Embedded(embedded.math_config_script@),
                math_script: math->Ok_0,
                webfont_loader_script: SourceView::Embedded(embedded.webfont_loader_script@),
            },
        )
    }
}

/// Binds every slot to its source, once for a conversion.
pub fn resolve_all(embedded: &EmbeddedAssets, overrides: Overrides) -> (result: Result<
    ResolvedAssets,
    ConvertError,
>)
    ensures
        match resolved_all(*embedded, overrides) {
            Ok(sources) => result matches Ok(assets) && assets@ == sources,
            Err(e) => result == Err::<ResolvedAssets, ConvertError>(e),
        },
{
    let Overrides { css, highlight_js, highlight_css, mathjax_js } = overrides;
    let base_stylesheet = match resolve(
        AssetSlot::BaseStylesheet,
        embedded.get(AssetSlot::BaseStylesheet),
        css,
    ) {
        Ok(source) => source,
        Err(e) => {
            return Err(e);
        },
    };
    let highlight_script = match resolve(
        AssetSlot::HighlightScript,
        embedded.get(AssetSlot::HighlightScript),
        highlight_js,
    ) {
        Ok(source) => source,
        Err(e) => {
            return Err(e);
        },
    };
    let highlight_stylesheet = match resolve(
        AssetSlot::HighlightStylesheet,
        embedded.get(AssetSlot::HighlightStylesheet),
        highlight_css,
    ) {
        Ok(source) => source,
        Err(e) => {
            return Err(e);
        },
    };
    let math_script = match resolve(
        AssetSlot::MathScript,
        embedded.get(AssetSlot::MathScript),
        mathjax_js,
    ) {
        Ok(source) => source,
        Err(e) => {
            return Err(e);
        },
    };
    Ok(
        ResolvedAssets {
            base_stylesheet,
            cjk_font_stylesheet: AssetSource::Embedded(
                embedded.get(AssetSlot::CjkFontStylesheet).to_owned(),
            ),
            cjk_mono_font_stylesheet: AssetSource::Embedded(
                embedded.get(AssetSlot::CjkMonoFontStylesheet).to_owned(),
            ),
            highlight_script,
            highlight_stylesheet,
            math_config_script: AssetSource::Embedded(
                embedded.get(AssetSlot::MathConfigScript).to_owned(),
            ),
            math_script,
            webfont_loader_script: AssetSource::Embedded(
                embedded.get(AssetSlot::WebfontLoaderScript).to_owned(),
            ),
        },
    )
}

} // verus!
