use markdown2html_converter::{
    check_input, check_output, default_output_name, is_markdown_extension, resolve_title,
    ConvertError, InputKind, OutputKind,
};

#[test]
fn markdown_extensions_are_accepted_in_any_case() {
    assert!(is_markdown_extension("md"));
    assert!(is_markdown_extension("MD"));
    assert!(is_markdown_extension("Md"));
    assert!(is_markdown_extension("markdown"));
    assert!(is_markdown_extension("MARKDOWN"));
    assert!(is_markdown_extension("MarkDown"));
}

#[test]
fn other_extensions_are_refused() {
    assert!(!is_markdown_extension(""));
    assert!(!is_markdown_extension("m"));
    assert!(!is_markdown_extension("mdx"));
    assert!(!is_markdown_extension("txt"));
    assert!(!is_markdown_extension("html"));
    assert!(!is_markdown_extension(".md"));
    assert!(!is_markdown_extension("markdow"));
    assert!(!is_markdown_extension("markdown "));
    assert!(!is_markdown_extension("-$"));
}

#[test]
fn input_must_exist_and_be_a_markdown_file() {
    assert_eq!(check_input(InputKind::File, "md"), Ok(()));
    assert_eq!(check_input(InputKind::File, "MARKDOWN"), Ok(()));
    assert_eq!(check_input(InputKind::File, "txt"), Err(ConvertError::InputError));
    assert_eq!(check_input(InputKind::File, ""), Err(ConvertError::InputError));
    assert_eq!(check_input(InputKind::Missing, "md"), Err(ConvertError::InputError));
    assert_eq!(check_input(InputKind::Directory, "md"), Err(ConvertError::InputError));
}

#[test]
fn existing_output_needs_force() {
    assert_eq!(check_output(OutputKind::File, false), Err(ConvertError::OutputExistsError));
    assert_eq!(check_output(OutputKind::File, true), Ok(()));
}

#[test]
fn absent_output_is_always_fine() {
    assert_eq!(check_output(OutputKind::Absent, false), Ok(()));
    assert_eq!(check_output(OutputKind::Absent, true), Ok(()));
}

#[test]
fn output_that_is_no_file_is_never_replaced() {
    assert_eq!(check_output(OutputKind::Other, false), Err(ConvertError::OutputExistsError));
    assert_eq!(check_output(OutputKind::Other, true), Err(ConvertError::OutputExistsError));
}

#[test]
fn title_defaults_to_the_stem() {
    assert_eq!(resolve_title(None, "notes"), "notes");
    assert_eq!(resolve_title(Some("Hello World!".to_string()), "notes"), "Hello World!");
    assert_eq!(resolve_title(Some(String::new()), "notes"), "");
}

#[test]
fn output_name_defaults_to_stem_and_html() {
    assert_eq!(default_output_name("file"), "file.html");
    assert_eq!(default_output_name(""), ".html");
    assert_eq!(default_output_name("a.b"), "a.b.html");
}
