//! Rendering of Markdown to an HTML fragment, done by `comrak`.

use vstd::prelude::*;

verus! {

/// The switches that the renderer is run with.
#[derive(Clone, Copy, Debug, PartialEq, Eq, Structural)]
pub struct RenderFlags {
    /// Let raw HTML and dangerous link targets through.
    pub allow_unsafe: bool,
    pub autolink: bool,
    pub description_lists: bool,
    pub footnotes: bool,
    pub strikethrough: bool,
    pub superscript: bool,
    pub table: bool,
    pub tagfilter: bool,
    pub tasklist: bool,
    pub hardbreaks: bool,
}

impl RenderFlags {
    /// The switches in the order of the fields.
    pub open spec fn switches(self) -> Seq<bool> {
        seq![
            self.allow_unsafe,
            self.autolink,
            self.description_lists,
            self.footnotes,
            self.strikethrough,
            self.superscript,
            self.table,
            self.tagfilter,
            self.tasklist,
            self.hardbreaks,
        ]
    }

    /// The switches of a conversion: every extension on, and safe mode on
    /// unless it was switched off.
    pub open spec fn of_conversion(no_safe: bool) -> RenderFlags {
        RenderFlags {
            allow_unsafe: no_safe,
            autolink: true,
            description_lists: true,
            footnotes: true,
            strikethrough: true,
            superscript: true,
            table: true,
            tagfilter: true,
            tasklist: true,
            hardbreaks: true,
        }
    }

    /// The switches of a conversion.
    pub fn for_conversion(no_safe: bool) -> (flags: RenderFlags)
        ensures
            flags == RenderFlags::of_conversion(no_safe),
    {
        RenderFlags {
            allow_unsafe: no_safe,
            autolink: true,
            description_lists: true,
            footnotes: true,
            strikethrough: true,
            superscript: true,
            table: true,
            tagfilter: true,
            tasklist: true,
            hardbreaks: true,
        }
    }
}

/// The fragment that `comrak::markdown_to_html` returns for a source text
/// and the given switches, all other options left at their defaults.
pub uninterp spec fn rendered(markdown: Seq<char>, switches: Seq<bool>) -> Seq<char>;

/// Calls `comrak::markdown_to_html`. Trusted: the fragment is a function of
/// the source text and the switches; nothing more is claimed of it.
#[verifier::external_body]
fn markdown_to_html(markdown: &str, flags: RenderFlags) -> (fragment: String)
    ensures
        fragment@ == rendered(markdown@, flags.switches()),
{
    let mut options = comrak::Options::default();
    options.render.unsafe_ = flags.allow_unsafe;
    options.extension.autolink = flags.autolink;
    options.extension.description_lists = flags.description_lists;
    options.extension.footnotes = flags.footnotes;
    options.extension.strikethrough = flags.strikethrough;
    options.extension.superscript = flags.superscript;
    options.extension.table = flags.table;
    options.extension.tagfilter = flags.tagfilter;
    options.extension.tasklist = flags.tasklist;
    options.render.hardbreaks = flags.hardbreaks;
    comrak::markdown_to_html(markdown, &options)
}

/// Renders a Markdown source to an HTML fragment with the switches of a
/// conversion.
pub fn render(markdown: &str, no_safe: bool) -> (fragment: String)
    ensures
        fragment@ == rendered(markdown@, RenderFlags::of_conversion(no_safe).switches()),
{
    markdown_to_html(markdown, RenderFlags::for_conversion(no_safe))
}

} // verus!
