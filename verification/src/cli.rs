//! The arguments of the command line.

use vstd::prelude::*;
use vstd::string::StringSliceAdditionalSpecFns;
use vstd::utf8::encode_utf8;

verus! {

/// What the command line asked for.
#[derive(Clone, Debug)]
pub struct CLIArgs {
    /// The title of the HTML file.
    pub title: Option<String>,
    /// The path of the Markdown file.
    pub markdown_path: String,
    /// The path of the HTML file.
    pub html_path: Option<String>,
    /// Write the HTML file even where it exists.
    pub force: bool,
    /// Let raw HTML and dangerous link targets through.
    pub no_safe: bool,
    /// Leave out the syntax highlighter.
    pub no_highlight: bool,
    /// Leave out the math renderer.
    pub no_mathjax: bool,
    /// Leave out the fonts for Chinese, Japanese and Korean text.
    pub no_cjk_fonts: bool,
    /// The path of a stylesheet to use in place of the bundled one.
    pub css_path: Option<String>,
    /// The path of a highlighter script to use in place of the bundled one.
    pub highlight_js_path: Option<String>,
    /// The path of a highlighter stylesheet to use in place of the bundled one.
    pub highlight_css_path: Option<String>,
    /// The path of a math script to use in place of the bundled one.
    pub mathjax_js_path: Option<String>,
}

/// The arguments as the contracts see them.
pub struct ArgsView {
    pub title: Option<Seq<char>>,
    pub markdown_path: Seq<char>,
    pub html_path: Option<Seq<char>>,
    pub force: bool,
    pub no_safe: bool,
    pub no_highlight: bool,
    pub no_mathjax: bool,
    pub no_cjk_fonts: bool,
    pub css_path: Option<Seq<char>>,
    pub highlight_js_path: Option<Seq<char>>,
    pub highlight_css_path: Option<Seq<char>>,
    pub mathjax_js_path: Option<Seq<char>>,
}

/// An optional text as the contracts see it.
pub open spec fn text_view(text: Option<String>) -> Option<Seq<char>> {
    match text {
        Some(s) => Some(s@),
        None => None,
    }
}

impl View for CLIArgs {
    type V = ArgsView;

    open spec fn view(&self) -> ArgsView {
        ArgsView {
            title: text_view(self.title),
            markdown_path: self.markdown_path@,
            html_path: text_view(self.html_path),
            force: self.force,
            no_safe: self.no_safe,
            no_highlight: self.no_highlight,
            no_mathjax: self.no_mathjax,
            no_cjk_fonts: self.no_cjk_fonts,
            css_path: text_view(self.css_path),
            highlight_js_path: text_view(self.highlight_js_path),
            highlight_css_path: text_view(self.highlight_css_path),
            mathjax_js_path: text_view(self.mathjax_js_path),
        }
    }
}

/// Why a command line is refused.
#[derive(Clone, Copy, Debug, PartialEq, Eq, Structural)]
pub enum ArgsError {
    /// No Markdown file is named, or its path is empty.
    MissingInput,
    /// An option that wants a value is followed by none: the arguments end,
    /// another option or `--` follows, or the path given is empty.
    MissingValue,
    /// An argument looks like an option and is none.
    UnknownOption,
    /// A second Markdown file is named.
    UnexpectedArgument,
    /// An option is given twice.
    Repeated,
}

/// The options that stand alone.
#[derive(Clone, Copy, Debug, PartialEq, Eq, Structural)]
pub enum Flag {
    Force,
    NoSafe,
    NoHighlight,
    NoMathjax,
    NoCjkFonts,
}

/// The options that are followed by a value.
#[derive(Clone, Copy, Debug, PartialEq, Eq, Structural)]
pub enum Setting {
    Title,
    HtmlPath,
    CssPath,
    HighlightJsPath,
    HighlightCssPath,
    MathjaxJsPath,
}

impl Flag {
    /// The place of the flag among the flags.
    pub open spec fn index(self) -> int {
        match self {
            Flag::Force => 0,
            Flag::NoSafe => 1,
            Flag::NoHighlight => 2,
            Flag::NoMathjax => 3,
            Flag::NoCjkFonts => 4,
        }
    }

    fn position(self) -> (at: usize)
        ensures
            at == self.index(),
            at < 5,
    {
        match self {
            Flag::Force => 0,
            Flag::NoSafe => 1,
            Flag::NoHighlight => 2,
            Flag::NoMathjax => 3,
            Flag::NoCjkFonts => 4,
        }
    }
}

impl Setting {
    /// Whether the value of the setting is a path. Only the title is none.
    pub open spec fn is_path(self) -> bool {
        self != Setting::Title
    }

    /// Whether the value of the setting is a path.
    pub fn holds_path(self) -> (path: bool)
        ensures
            path == self.is_path(),
    {
        match self {
            Setting::Title => false,
            _ => true,
        }
    }

    /// The place of the setting among the settings.
    pub open spec fn index(self) -> int {
        match self {
            Setting::Title => 0,
            Setting::HtmlPath => 1,
            Setting::CssPath => 2,
            Setting::HighlightJsPath => 3,
            Setting::HighlightCssPath => 4,
            Setting::MathjaxJsPath => 5,
        }
    }

    fn position(self) -> (at: usize)
        ensures
            at == self.index(),
            at < 6,
    {
        match self {
            Setting::Title => 0,
            Setting::HtmlPath => 1,
            Setting::CssPath => 2,
            Setting::HighlightJsPath => 3,
            Setting::HighlightCssPath => 4,
            Setting::MathjaxJsPath => 5,
        }
    }
}

/// What one argument is, read by itself.
#[derive(Clone, Copy, Debug, PartialEq, Eq, Structural)]
pub enum Word {
    /// `--`: whatever follows is no option.
    Separator,
    Flag(Flag),
    Setting(Setting),
    /// It starts with a hyphen, is longer than the hyphen, and is no option.
    Unknown,
    /// Anything else: a path.
    Plain,
}

/// What an argument with these bytes is.
pub open spec fn word_of(arg: Seq<u8>) -> Word {
    if arg == "--".spec_bytes() {
        Word::Separator
    } else if arg == "-f".spec_bytes() || arg == "--force".spec_bytes() {
        Word::Flag(Flag::Force)
    } else if arg == "--no-safe".spec_bytes() {
        Word::Flag(Flag::NoSafe)
    } else if arg == "--no-highlight".spec_bytes() {
        Word::Flag(Flag::NoHighlight)
    } else if arg == "--no-mathjax".spec_bytes() {
        Word::Flag(Flag::NoMathjax)
    } else if arg == "--no-cjk-fonts".spec_bytes() {
        Word::Flag(Flag::NoCjkFonts)
    } else if arg == "-t".spec_bytes() || arg == "--title".spec_bytes() {
        Word::Setting(Setting::Title)
    } else if arg == "-o".spec_bytes() || arg == "--html-path".spec_bytes() {
        Word::Setting(Setting::HtmlPath)
    } else if arg == "--css-path".spec_bytes() {
        Word::Setting(Setting::CssPath)
    } else if arg == "--highlight-js-path".spec_bytes() {
        Word::Setting(Setting::HighlightJsPath)
    } else if arg == "--highlight-css-path".spec_bytes() {
        Word::Setting(Setting::HighlightCssPath)
    } else if arg == "--mathjax-js-path".spec_bytes() {
        Word::Setting(Setting::MathjaxJsPath)
    } else if arg.len() >= 2 && arg[0] == 45 {
        Word::Unknown
    } else {
        Word::Plain
    }
}

/// Tells whether two byte strings are equal.
fn same_bytes(left: &[u8], right: &str) -> (same: bool)
    ensures
        same == (left@ == right.spec_bytes()),
{
    let other = right.as_bytes();
    if left.len() != other.len() {
        return false;
    }
    let mut i: usize = 0;
    while i < left.len()
        invariant
            left@.len() == other@.len(),
            other@ == right.spec_bytes(),
            i <= left@.len(),
            forall|j: int| 0 <= j < i ==> left@[j] == other@[j],
        decreases left@.len() - i,
    {
        if left[i] != other[i] {
            assert(left@[i as int] != right.spec_bytes()[i as int]);
            return false;
        }
        i += 1;
    }
    assert(left@ =~= other@);
    true
}

/// Reads one argument by itself.
pub fn classify(arg: &str) -> (word: Word)
    ensures
        word == word_of(arg.spec_bytes()),
{
    let bytes = arg.as_bytes();
    if same_bytes(bytes, "--") {
        Word::Separator
    } else if same_bytes(bytes, "-f") || same_bytes(bytes, "--force") {
        Word::Flag(Flag::Force)
    } else if same_bytes(bytes, "--no-safe") {
        Word::Flag(Flag::NoSafe)
    } else if same_bytes(bytes, "--no-highlight") {
        Word::Flag(Flag::NoHighlight)
    } else if same_bytes(bytes, "--no-mathjax") {
        Word::Flag(Flag::NoMathjax)
    } else if same_bytes(bytes, "--no-cjk-fonts") {
        Word::Flag(Flag::NoCjkFonts)
    } else if same_bytes(bytes, "-t") || same_bytes(bytes, "--title") {
        Word::Setting(Setting::Title)
    } else if same_bytes(bytes, "-o") || same_bytes(bytes, "--html-path") {
        Word::Setting(Setting::HtmlPath)
    } else if same_bytes(bytes, "--css-path") {
        Word::Setting(Setting::CssPath)
    } else if same_bytes(bytes, "--highlight-js-path") {
        Word::Setting(Setting::HighlightJsPath)
    } else if same_bytes(bytes, "--highlight-css-path") {
        Word::Setting(Setting::HighlightCssPath)
    } else if same_bytes(bytes, "--mathjax-js-path") {
        Word::Setting(Setting::MathjaxJsPath)
    } else if bytes.len() >= 2 && bytes[0] == 45 {
        Word::Unknown
    } else {
        Word::Plain
    }
}

/// What has been read of a command line so far.
pub struct ParseState {
    /// For each flag, whether it was given.
    pub flags: Seq<bool>,
    /// For each setting, its value where it was given.
    pub values: Seq<Option<Seq<char>>>,
    /// The Markdown file, where one was named.
    pub input: Option<Seq<char>>,
    /// Whether `--` was passed.
    pub literal: bool,
}

/// The state before the first argument.
pub open spec fn nothing_read() -> ParseState {
    ParseState {
        flags: Seq::new(5, |i: int| false),
        values: Seq::new(6, |i: int| None::<Seq<char>>),
        input: None,
        literal: false,
    }
}

/// Whether an argument can be the value of a setting: it is there and is a
/// plain word, and where the setting is a path it is not empty. An argument
/// that reads as an option, or `--`, is never taken as a value.
pub open spec fn value_given(args: Seq<Seq<char>>, at: int, setting: Setting) -> bool {
    &&& 0 <= at < args.len()
    &&& word_of(encode_utf8(args[at])) == Word::Plain
    &&& setting.is_path() ==> args[at].len() > 0
}

/// Reads the arguments from the one at `at` on. A flag sets itself; a setting
/// takes the plain word after it as its value; `--` ends the options; any
/// other argument is the Markdown file. Nothing may come twice, and no path
/// may be empty.
pub open spec fn parsed_from(args: Seq<Seq<char>>, at: int, state: ParseState) -> Result<
    ParseState,
    ArgsError,
>
    decreases args.len() - at,
{
    if at < 0 || at >= args.len() {
        Ok(state)
    } else {
        let word = if state.literal {
            Word::Plain
        } else {
            word_of(encode_utf8(args[at]))
        };
        match word {
            Word::Separator => parsed_from(args, at + 1, ParseState { literal: true, ..state }),
            Word::Flag(flag) => if state.flags[flag.index()] {
                Err(ArgsError::Repeated)
            } else {
                parsed_from(
                    args,
                    at + 1,
                    ParseState { flags: state.flags.update(flag.index(), true), ..state },
                )
            },
            Word::Setting(setting) => if state.values[setting.index()] is Some {
                Err(ArgsError::Repeated)
            } else if !value_given(args, at + 1, setting) {
                Err(ArgsError::MissingValue)
            } else {
                parsed_from(
                    args,
                    at + 2,
                    ParseState {
                        values: state.values.update(setting.index(), Some(args[at + 1])),
                        ..state
                    },
                )
            },
            Word::Unknown => Err(ArgsError::UnknownOption),
            Word::Plain => if state.input is Some {
                Err(ArgsError::UnexpectedArgument)
            } else if args[at].len() == 0 {
                Err(ArgsError::MissingInput)
            } else {
                parsed_from(args, at + 1, ParseState { input: Some(args[at]), ..state })
            },
        }
    }
}

/// What a command line asks for, or why it is refused.
pub open spec fn parsed(args: Seq<Seq<char>>) -> Result<ArgsView, ArgsError> {
    match parsed_from(args, 0, nothing_read()) {
        Err(e) => Err(e),
        Ok(state) => match state.input {
            None => Err(ArgsError::MissingInput),
            Some(path) => Ok(
                ArgsView {
                    title: state.values[Setting::Title.index()],
                    markdown_path: path,
                    html_path: state.values[Setting::HtmlPath.index()],
                    force: state.flags[Flag::Force.index()],
                    no_safe: state.flags[Flag::NoSafe.index()],
                    no_highlight: state.flags[Flag::NoHighlight.index()],
                    no_mathjax: state.flags[Flag::NoMathjax.index()],
                    no_cjk_fonts: state.flags[Flag::NoCjkFonts.index()],
                    css_path: state.values[Setting::CssPath.index()],
                    highlight_js_path: state.values[Setting::HighlightJsPath.index()],
                    highlight_css_path: state.values[Setting::HighlightCssPath.index()],
                    mathjax_js_path: state.values[Setting::MathjaxJsPath.index()],
                },
            ),
        },
    }
}

/// The arguments as the contracts see them.
pub open spec fn args_view(args: Seq<String>) -> Seq<Seq<char>> {
    args.map_values(|arg: String| arg@)
}

/// The values read so far as the contracts see them.
pub open spec fn values_view(values: Seq<Option<String>>) -> Seq<Option<Seq<char>>> {
    values.map_values(|value: Option<String>| text_view(value))
}

/// Takes the last value out of the list.
fn take_last(values: &mut Vec<Option<String>>) -> (value: Option<String>)
    requires
        old(values)@.len() > 0,
    ensures
        final(values)@ == old(values)@.drop_last(),
        value == old(values)@.last(),
{
    match values.pop() {
        Some(value) => value,
        None => None,
    }
}

/// Reads the arguments of a command line, the program's name left out.
///
/// `-f` or `--force`, `--no-safe`, `--no-highlight`, `--no-mathjax` and
/// `--no-cjk-fonts` stand alone. `-t` or `--title`, `-o` or `--html-path`,
/// `--css-path`, `--highlight-js-path`, `--highlight-css-path` and
/// `--mathjax-js-path` take the next argument as their value, which must be
/// a plain word: an option in its place is no value. After `--` nothing is
/// an option. The one argument left is the Markdown file. No path may be
/// empty; the title may.
pub fn get_args(argv: &Vec<String>) -> (result: Result<CLIArgs, ArgsError>)
    ensures
        match parsed(args_view(argv@)) {
            Ok(asked) => result matches Ok(args) && args@ == asked,
            Err(e) => result == Err::<CLIArgs, ArgsError>(e),
        },
{
    let ghost args = args_view(argv@);
    let mut flags: Vec<bool> = vec![false, false, false, false, false];
    let mut values: Vec<Option<String>> = vec![None, None, None, None, None, None];
    let mut input: Option<String> = None;
    let mut literal = false;
    let mut at: usize = 0;
    proof {
        assert(flags@ =~= nothing_read().flags);
        assert(values_view(values@) =~= nothing_read().values);
    }
    while at < argv.len()
        invariant
            at <= argv@.len(),
            args == args_view(argv@),
            flags@.len() == 5,
            values@.len() == 6,
            parsed_from(args, 0, nothing_read()) == parsed_from(
                args,
                at as int,
                ParseState {
                    flags: flags@,
                    values: values_view(values@),
                    input: text_view(input),
                    literal,
                },
            ),
        decreases argv@.len() - at,
    {
        let arg = argv[at].as_str();
        assert(args[at as int] == arg@);
        let word = if literal {
            Word::Plain
        } else {
            classify(arg)
        };
        match word {
            Word::Separator => {
                literal = true;
                at += 1;
            },
            Word::Flag(flag) => {
                let k = flag.position();
                if flags[k] {
                    return Err(ArgsError::Repeated);
                }
                flags.set(k, true);
                at += 1;
            },
            Word::Setting(setting) => {
                let k = setting.position();
                if values[k].is_some() {
                    return Err(ArgsError::Repeated);
                }
                if at + 1 >= argv.len() {
                    return Err(ArgsError::MissingValue);
                }
                let value = argv[at + 1].as_str();
                assert(args[at + 1] == value@);
                if classify(value) != Word::Plain {
                    return Err(ArgsError::MissingValue);
                }
                if setting.holds_path() && value.is_empty() {
                    return Err(ArgsError::MissingValue);
                }
                let ghost before = values_view(values@);
                values.set(k, Some(argv[at + 1].clone()));
                proof {
                    assert(values_view(values@) =~= before.update(
                        k as int,
                        Some(args[at + 1]),
                    ));
                }
                at += 2;
            },
            Word::Unknown => {
                return Err(ArgsError::UnknownOption);
            },
            Word::Plain => {
                if input.is_some() {
                    return Err(ArgsError::UnexpectedArgument);
                }
                if arg.is_empty() {
                    return Err(ArgsError::MissingInput);
                }
                input = Some(argv[at].clone());
                at += 1;
            },
        }
    }
    let markdown_path = match input {
        Some(path) => path,
        None => {
            return Err(ArgsError::MissingInput);
        },
    };
    let mathjax_js_path = take_last(&mut values);
    let highlight_css_path = take_last(&mut values);
    let highlight_js_path = take_last(&mut values);
    let css_path = take_last(&mut values);
    let html_path = take_last(&mut values);
    let title = take_last(&mut values);
    Ok(
        CLIArgs {
            title,
            markdown_path,
            html_path,
            force: flags[0],
            no_safe: flags[1],
            no_highlight: flags[2],
            no_mathjax: flags[3],
            no_cjk_fonts: flags[4],
            css_path,
            highlight_js_path,
            highlight_css_path,
            mathjax_js_path,
        },
    )
}

} // verus!
