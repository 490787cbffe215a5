//! Turns one Markdown document into a single self-contained HTML file.
//!
//! The library holds the decisions of a conversion: which optional assets a
//! rendered fragment needs, where each asset comes from, in which order the
//! pieces of the document are emitted, how untrusted text is escaped for the
//! element it lands in, and whether the emitted tags are balanced. Reading and
//! writing files is left to the caller, who hands over what was read.

pub mod assembler;
pub mod assets;
pub mod cli;
pub mod config;
pub mod convert;
pub mod error;
pub mod escape;
pub mod minify;
pub mod plan;
pub mod policy;
pub mod render;
pub mod sniff;

pub use assembler::{assemble, is_blank, Assembler, Element, Instruction};
pub use assets::{
    decode, resolve, resolve_all, AssetSlot, AssetSource, EmbeddedAssets, Loaded, Overrides,
    ResolvedAssets,
};
pub use cli::{classify, get_args, ArgsError, CLIArgs, Flag, Setting, Word};
pub use config::Config;
pub use convert::{convert, run, Inputs};
pub use error::{ConvertError, Origin};
pub use escape::{escape, Context};
pub use minify::{minify_html, minify_outcome};
pub use plan::{
    body_order, emission_plan, emitted_slots, head_order, Document, Gate, Gates, Placement,
};
pub use policy::{
    check_input, check_output, default_output_name, is_markdown_extension, resolve_title,
    InputKind, OutputKind,
};
pub use render::{render, RenderFlags};
pub use sniff::{contains, sniff, Sniffed};
