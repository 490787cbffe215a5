//! The settings of one conversion.

use vstd::prelude::*;

use crate::cli::CLIArgs;

verus! {

/// The settings of one conversion.
#[derive(Clone, Debug)]
pub struct Config {
    pub markdown_path: String,
    pub html_path: Option<String>,
    pub title: Option<String>,
    pub force: bool,
    pub no_safe: bool,
    pub no_highlight: bool,
    pub no_mathjax: bool,
    pub no_cjk_fonts: bool,
    pub css_path: Option<String>,
    pub highlight_js_path: Option<String>,
    pub highlight_css_path: Option<String>,
    pub mathjax_js_path: Option<String>,
}

impl Config {
    /// The settings that the command line asked for. Every field is taken
    /// over as it is; there is no command line that gives no settings.
    pub fn from_cli(args: CLIArgs) -> (result: Result<Config, String>)
        ensures
            result matches Ok(config) && ({
                &&& config.markdown_path == args.markdown_path
                &&& config.html_path == args.html_path
                &&& config.title == args.title
                &&& config.force == args.force
                &&& config.no_safe == args.no_safe
                &&& config.no_highlight == args.no_highlight
                &&& config.no_mathjax == args.no_mathjax
                &&& config.no_cjk_fonts == args.no_cjk_fonts
                &&& config.css_path == args.css_path
                &&& config.highlight_js_path == args.highlight_js_path
                &&& config.highlight_css_path == args.highlight_css_path
                &&& config.mathjax_js_path == args.mathjax_js_path
            }),
    {
        Ok(
            Config {
                markdown_path: args.markdown_path,
                html_path: args.html_path,
                title: args.title,
                force: args.force,
                no_safe: args.no_safe,
                no_highlight: args.no_highlight,
                no_mathjax: args.no_mathjax,
                no_cjk_fonts: args.no_cjk_fonts,
                css_path: args.css_path,
                highlight_js_path: args.highlight_js_path,
                highlight_css_path: args.highlight_css_path,
                mathjax_js_path: args.mathjax_js_path,
            },
        )
    }
}

} // verus!
