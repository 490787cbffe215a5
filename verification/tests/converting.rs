use markdown2html_converter::{
    convert, decode, minify_html, minify_outcome, render, resolve, resolve_all, run, AssetSlot,
    AssetSource, Config, ConvertError, EmbeddedAssets, Inputs, InputKind, Loaded, Origin,
    OutputKind, Overrides,
};

fn embedded() -> EmbeddedAssets {
    EmbeddedAssets {
        base_stylesheet: "BASE{}".to_string(),
        cjk_font_stylesheet: "CJK{}".to_string(),
        cjk_mono_font_stylesheet: "MONO{}".to_string(),
        highlight_script: "hljs();".to_string(),
        highlight_stylesheet: "HLCSS{}".to_string(),
        math_config_script: "mathcfg();".to_string(),
        math_script: "math();".to_string(),
        webfont_loader_script: "webfont();".to_string(),
    }
}

fn config() -> Config {
    Config {
        markdown_path: "hi.md".to_string(),
        html_path: None,
        title: None,
        force: false,
        no_safe: false,
        no_highlight: false,
        no_mathjax: false,
        no_cjk_fonts: false,
        css_path: None,
        highlight_js_path: None,
        highlight_css_path: None,
        mathjax_js_path: None,
    }
}

fn no_overrides() -> Overrides {
    Overrides {
        css: Loaded::Absent,
        highlight_js: Loaded::Absent,
        highlight_css: Loaded::Absent,
        mathjax_js: Loaded::Absent,
    }
}

fn inputs(markdown: &str) -> Inputs {
    Inputs {
        input_kind: InputKind::File,
        extension: "md".to_string(),
        stem: "hi".to_string(),
        output_kind: OutputKind::Absent,
        markdown: Loaded::Bytes(markdown.as_bytes().to_vec()),
        overrides: no_overrides(),
        embedded: embedded(),
        generator: "Markdown to HTML Converter 1.0.0 by magiclen.org".to_string(),
    }
}

const LINES: &str = "<!DOCTYPE html><html><head><meta charset=UTF-8><meta name=\"viewport\" content=\"width=device-width, initial-scale=1, shrink-to-fit=no\"><meta name=\"generator\" content=\"Markdown to HTML Converter 1.0.0 by magiclen.org\"/>";

#[test]
fn heading_converts_to_the_default_document() {
    let html = convert(config(), inputs("# Hi")).unwrap();
    let expected = format!(
        "{}<title>hi</title><style>BASE{{}}</style><style>CJK{{}}</style><style>MONO{{}}</style></head><body><article class=\"markdown-body\"><h1>Hi</h1>\n</article><script>webfont();</script></body></html>",
        LINES
    );
    assert_eq!(html, expected);
}

#[test]
fn heading_runs_to_a_minified_document() {
    let bytes = run(config(), inputs("# Hi")).unwrap();
    let html = String::from_utf8(bytes).unwrap();
    assert!(html.starts_with("<!DOCTYPE html>"));
    assert!(html.ends_with("</body></html>"));
    assert!(html.contains("<title>hi</title>"));
    assert!(html.contains("<style>BASE{}</style>"));
    assert!(html.contains("<h1>Hi</h1>"));
    assert!(!html.contains("hljs();"));
    assert!(!html.contains("HLCSS{}"));
    assert!(!html.contains("mathcfg();"));
    assert!(!html.contains("math();"));
}

#[test]
fn title_can_be_given() {
    let mut cfg = config();
    cfg.title = Some("A & B".to_string());
    let html = convert(cfg, inputs("# Hi")).unwrap();
    assert!(html.contains("<title>A &amp; B</title>"));
}

#[test]
fn css_override_replaces_the_default_stylesheet() {
    let mut given = inputs("# Hi");
    given.overrides.css = Loaded::Bytes(b"body{color:red}".to_vec());
    let html = convert(config(), given).unwrap();
    assert!(html.contains("<style>body{color:red}</style>"));
    assert!(!html.contains("BASE{}"));
}

#[test]
fn css_override_survives_minification() {
    let mut given = inputs("# Hi");
    given.overrides.css = Loaded::Bytes(b"body{color:red}".to_vec());
    let html = String::from_utf8(run(config(), given).unwrap()).unwrap();
    assert!(html.contains("<style>body{color:red}</style>"));
    assert!(!html.contains("BASE{}"));
}

#[test]
fn css_override_cannot_leave_its_style_element() {
    let mut given = inputs("# Hi");
    given.overrides.css = Loaded::Bytes(b"a{}</style><script>evil()</script>".to_vec());
    let html = convert(config(), given).unwrap();
    assert!(html.contains("<style>a{}<\\/style><script>evil()</script></style>"));
}

#[test]
fn code_block_brings_the_highlighter() {
    let html = convert(config(), inputs("```\nx\n```\n")).unwrap();
    assert!(html.contains("<script>hljs();</script><style>HLCSS{}</style>"));
    assert!(!html.contains("math();"));
}

#[test]
fn no_highlight_leaves_the_highlighter_out() {
    let mut cfg = config();
    cfg.no_highlight = true;
    let html = convert(cfg, inputs("```\nx\n```\n")).unwrap();
    assert!(!html.contains("hljs();"));
    assert!(!html.contains("HLCSS{}"));
}

#[test]
fn math_marker_brings_the_math_scripts() {
    let html = convert(config(), inputs("#{{x}}#")).unwrap();
    assert!(html.contains("<script>mathcfg();</script><script>math();</script>"));
}

#[test]
fn no_mathjax_leaves_the_math_scripts_out() {
    let mut cfg = config();
    cfg.no_mathjax = true;
    let html = convert(cfg, inputs("#{{x}}#")).unwrap();
    assert!(!html.contains("mathcfg();"));
    assert!(!html.contains("math();"));
}

#[test]
fn no_cjk_fonts_leaves_the_fonts_out() {
    let mut cfg = config();
    cfg.no_cjk_fonts = true;
    let html = convert(cfg, inputs("# Hi")).unwrap();
    assert!(!html.contains("CJK{}"));
    assert!(!html.contains("MONO{}"));
    assert!(!html.contains("webfont();"));
}

#[test]
fn highlight_overrides_are_escaped_for_their_elements() {
    let mut given = inputs("```\nx\n```\n");
    given.overrides.highlight_js = Loaded::Bytes(b"a('</script>')".to_vec());
    given.overrides.highlight_css = Loaded::Bytes(b"p{}</style>".to_vec());
    let html = convert(config(), given).unwrap();
    assert!(html.contains("<script>a('<\\/script>')</script>"));
    assert!(html.contains("<style>p{}<\\/style></style>"));
    assert!(!html.contains("hljs();"));
}

#[test]
fn missing_input_is_an_input_error() {
    let mut given = inputs("# Hi");
    given.input_kind = InputKind::Missing;
    assert_eq!(run(config(), given), Err(ConvertError::InputError));
}

#[test]
fn directory_input_is_an_input_error() {
    let mut given = inputs("# Hi");
    given.input_kind = InputKind::Directory;
    assert_eq!(run(config(), given), Err(ConvertError::InputError));
}

#[test]
fn wrong_extension_is_an_input_error() {
    let mut given = inputs("# Hi");
    given.extension = "txt".to_string();
    assert_eq!(run(config(), given), Err(ConvertError::InputError));
}

#[test]
fn upper_case_extension_is_accepted() {
    let mut given = inputs("# Hi");
    given.extension = "MarkDown".to_string();
    assert!(run(config(), given).is_ok());
}

#[test]
fn existing_output_without_force_is_refused() {
    let mut given = inputs("# Hi");
    given.output_kind = OutputKind::File;
    assert_eq!(run(config(), given), Err(ConvertError::OutputExistsError));
}

#[test]
fn existing_output_with_force_is_replaced() {
    let mut given = inputs("# Hi");
    given.output_kind = OutputKind::File;
    let mut cfg = config();
    cfg.force = true;
    assert!(run(cfg, given).is_ok());
}

#[test]
fn output_that_is_no_file_is_refused_even_with_force() {
    let mut given = inputs("# Hi");
    given.output_kind = OutputKind::Other;
    let mut cfg = config();
    cfg.force = true;
    assert_eq!(run(cfg, given), Err(ConvertError::OutputExistsError));
}

#[test]
fn input_error_comes_before_output_error() {
    let mut given = inputs("# Hi");
    given.extension = "txt".to_string();
    given.output_kind = OutputKind::File;
    assert_eq!(run(config(), given), Err(ConvertError::InputError));
}

#[test]
fn unreadable_markdown_is_an_io_error() {
    let mut given = inputs("");
    given.markdown = Loaded::Unreadable;
    assert_eq!(run(config(), given), Err(ConvertError::IOError(Origin::Markdown)));
    let mut given = inputs("");
    given.markdown = Loaded::Absent;
    assert_eq!(run(config(), given), Err(ConvertError::IOError(Origin::Markdown)));
}

#[test]
fn markdown_that_is_not_utf8_is_an_encoding_error() {
    let mut given = inputs("");
    given.markdown = Loaded::Bytes(vec![0x23, 0x20, 0xff, 0xfe]);
    assert_eq!(run(config(), given), Err(ConvertError::EncodingError(Origin::Markdown)));
}

#[test]
fn unreadable_override_is_an_io_error() {
    let mut given = inputs("# Hi");
    given.overrides.highlight_css = Loaded::Unreadable;
    assert_eq!(
        run(config(), given),
        Err(ConvertError::IOError(Origin::Override(AssetSlot::HighlightStylesheet)))
    );
}

#[test]
fn override_that_is_not_utf8_is_an_encoding_error() {
    let mut given = inputs("# Hi");
    given.overrides.mathjax_js = Loaded::Bytes(vec![0xc3, 0x28]);
    assert_eq!(
        run(config(), given),
        Err(ConvertError::EncodingError(Origin::Override(AssetSlot::MathScript)))
    );
}

#[test]
fn first_failing_override_wins() {
    let overrides = Overrides {
        css: Loaded::Absent,
        highlight_js: Loaded::Bytes(vec![0xff]),
        highlight_css: Loaded::Unreadable,
        mathjax_js: Loaded::Unreadable,
    };
    assert_eq!(
        resolve_all(&embedded(), overrides).unwrap_err(),
        ConvertError::EncodingError(Origin::Override(AssetSlot::HighlightScript))
    );
}

#[test]
fn resolve_all_binds_every_slot() {
    let overrides = Overrides {
        css: Loaded::Bytes(b"x{}".to_vec()),
        highlight_js: Loaded::Absent,
        highlight_css: Loaded::Absent,
        mathjax_js: Loaded::Bytes(b"m()".to_vec()),
    };
    let assets = resolve_all(&embedded(), overrides).unwrap();
    assert!(matches!(assets.get(AssetSlot::BaseStylesheet), AssetSource::Override(t) if t == "x{}"));
    assert!(matches!(assets.get(AssetSlot::CjkFontStylesheet), AssetSource::Embedded(t) if t == "CJK{}"));
    assert!(matches!(assets.get(AssetSlot::CjkMonoFontStylesheet), AssetSource::Embedded(t) if t == "MONO{}"));
    assert!(matches!(assets.get(AssetSlot::HighlightScript), AssetSource::Embedded(t) if t == "hljs();"));
    assert!(matches!(assets.get(AssetSlot::HighlightStylesheet), AssetSource::Embedded(t) if t == "HLCSS{}"));
    assert!(matches!(assets.get(AssetSlot::MathConfigScript), AssetSource::Embedded(t) if t == "mathcfg();"));
    assert!(matches!(assets.get(AssetSlot::MathScript), AssetSource::Override(t) if t == "m()"));
    assert!(matches!(assets.get(AssetSlot::WebfontLoaderScript), AssetSource::Embedded(t) if t == "webfont();"));
}

#[test]
fn resolve_prefers_the_override() {
    let slot = AssetSlot::BaseStylesheet;
    assert!(matches!(resolve(slot, "E", Loaded::Absent), Ok(AssetSource::Embedded(t)) if t == "E"));
    assert!(matches!(
        resolve(slot, "E", Loaded::Bytes(b"O".to_vec())),
        Ok(AssetSource::Override(t)) if t == "O"
    ));
    assert!(matches!(
        resolve(slot, "E", Loaded::Unreadable),
        Err(ConvertError::IOError(Origin::Override(AssetSlot::BaseStylesheet)))
    ));
    assert!(matches!(
        resolve(slot, "E", Loaded::Bytes(vec![0x80])),
        Err(ConvertError::EncodingError(Origin::Override(AssetSlot::BaseStylesheet)))
    ));
}

#[test]
fn decode_reads_utf8() {
    assert_eq!(decode(Origin::Markdown, Loaded::Absent), Ok(None));
    assert_eq!(
        decode(Origin::Markdown, Loaded::Bytes("h\u{e9}llo \u{4e2d}".as_bytes().to_vec())),
        Ok(Some("h\u{e9}llo \u{4e2d}".to_string()))
    );
    assert_eq!(decode(Origin::Markdown, Loaded::Bytes(Vec::new())), Ok(Some(String::new())));
    assert_eq!(
        decode(Origin::Markdown, Loaded::Bytes(vec![0xe4, 0xb8])),
        Err(ConvertError::EncodingError(Origin::Markdown))
    );
    assert_eq!(
        decode(Origin::Markdown, Loaded::Unreadable),
        Err(ConvertError::IOError(Origin::Markdown))
    );
}

#[test]
fn embedded_assets_are_found_by_slot() {
    let assets = embedded();
    assert_eq!(assets.get(AssetSlot::BaseStylesheet), "BASE{}");
    assert_eq!(assets.get(AssetSlot::CjkFontStylesheet), "CJK{}");
    assert_eq!(assets.get(AssetSlot::CjkMonoFontStylesheet), "MONO{}");
    assert_eq!(assets.get(AssetSlot::HighlightScript), "hljs();");
    assert_eq!(assets.get(AssetSlot::HighlightStylesheet), "HLCSS{}");
    assert_eq!(assets.get(AssetSlot::MathConfigScript), "mathcfg();");
    assert_eq!(assets.get(AssetSlot::MathScript), "math();");
    assert_eq!(assets.get(AssetSlot::WebfontLoaderScript), "webfont();");
}

#[test]
fn render_gives_the_fragment() {
    assert_eq!(render("# Hi", false), "<h1>Hi</h1>\n");
    assert_eq!(render("", false), "");
}

#[test]
fn render_has_the_extensions_on() {
    assert!(render("~~a~~", false).contains("<del>a</del>"));
    assert!(render("| a |\n|---|\n| b |\n", false).contains("<table>"));
    assert!(render("- [x] done\n", false).contains("checkbox"));
    assert!(render("a\nb\n", false).contains("<br"));
    assert!(render("see https://example.org now", false).contains("<a href=\"https://example.org\""));
}

#[test]
fn safe_mode_strips_raw_html() {
    let safe = render("a <b>x</b>\n", false);
    let raw = render("a <b>x</b>\n", true);
    assert!(!safe.contains("<b>"));
    assert!(raw.contains("<b>x</b>"));
}

#[test]
fn minify_removes_comments_and_needless_whitespace() {
    let out = String::from_utf8(minify_html("<p>a</p>   <!-- note -->   <p>b</p>").unwrap()).unwrap();
    assert!(!out.contains("note"));
    assert!(!out.contains("   "));
    assert!(out.contains("<p>a</p>"));
    assert!(out.contains("<p>b</p>"));
}

#[test]
fn whitespace_runs_do_not_change_the_minified_output() {
    let one = minify_html("<div>  <p>a</p>  <p>b</p>  </div>").unwrap();
    let two = minify_html("<div>     <p>a</p>        <p>b</p>   </div>").unwrap();
    assert_eq!(one, two);
}

#[test]
fn minify_keeps_preformatted_and_code_text() {
    let html = "<pre>  a   b\n\n   c </pre><code>  x    y  </code>";
    assert_eq!(minify_html(html).unwrap(), html.as_bytes());
}

#[test]
fn minify_keeps_script_and_style_text() {
    let html = "<style> p  {  color: red;  } </style><script> a();    b(); </script>";
    assert_eq!(minify_html(html).unwrap(), html.as_bytes());
}

#[test]
fn minify_refuses_an_unfinished_tag() {
    assert_eq!(minify_html("<p>a</p><div class=\"x"), Err(ConvertError::MinifierError));
}

#[test]
fn minify_outcome_maps_both_ways() {
    assert_eq!(minify_outcome(Ok(b"x".to_vec())), Ok(b"x".to_vec()));
    assert_eq!(
        minify_outcome(Err(html_minifier::HTMLMinifierError::IncompleteInput)),
        Err(ConvertError::MinifierError)
    );
}

#[test]
fn minify_still_drops_control_characters_from_preformatted_text() {
    assert_eq!(minify_html("<pre>a\u{1}b</pre>").unwrap(), b"<pre>ab</pre>".to_vec());
}

#[test]
fn blank_title_is_left_out() {
    let mut cfg = config();
    cfg.title = Some("   ".to_string());
    let html = convert(cfg, inputs("# Hi")).unwrap();
    assert!(html.contains("<title></title>"));
}

#[test]
fn empty_markdown_gives_an_empty_article() {
    let html = convert(config(), inputs("")).unwrap();
    assert!(html.contains("<article class=\"markdown-body\"></article>"));
}

#[test]
fn minifier_tells_a_space_from_a_line_break() {
    let space = minify_html("<p>a</p> <p>b</p>").unwrap();
    let line = minify_html("<p>a</p>\n<p>b</p>").unwrap();
    assert_ne!(space, line);
}

#[test]
fn generator_is_escaped_in_a_conversion() {
    let mut given = inputs("# Hi");
    given.generator = "x\" y".to_string();
    let html = convert(config(), given).unwrap();
    assert!(html.contains("<meta name=\"generator\" content=\"x&quot; y\"/>"));
}
