use markdown2html_converter::{contains, render, sniff, Sniffed};

#[test]
fn code_block_is_found_when_highlighting_is_allowed() {
    let found = sniff("<pre><code>x</code></pre>", false, false);
    assert!(found.has_code);
    assert!(!found.has_math);
}

#[test]
fn code_block_is_ignored_when_highlighting_is_disabled() {
    let found = sniff("<pre><code>x</code></pre>", true, false);
    assert_eq!(found, Sniffed { has_code: false, has_math: false });
}

#[test]
fn math_marker_is_found_when_math_is_allowed() {
    let found = sniff("<p>#{{x^2}}#</p>", false, false);
    assert_eq!(found, Sniffed { has_code: false, has_math: true });
}

#[test]
fn math_marker_is_ignored_when_math_is_disabled() {
    let found = sniff("<p>#{{x^2}}#</p>", false, true);
    assert_eq!(found, Sniffed { has_code: false, has_math: false });
}

#[test]
fn both_gates_are_independent() {
    let fragment = "<pre><code>#{{</code></pre>";
    assert_eq!(sniff(fragment, false, false), Sniffed { has_code: true, has_math: true });
    assert_eq!(sniff(fragment, true, false), Sniffed { has_code: false, has_math: true });
    assert_eq!(sniff(fragment, false, true), Sniffed { has_code: true, has_math: false });
    assert_eq!(sniff(fragment, true, true), Sniffed { has_code: false, has_math: false });
}

#[test]
fn marker_text_inside_a_code_block_still_counts_as_math() {
    let found = sniff("<p><code>#{{</code></p>", false, false);
    assert!(found.has_math);
    assert!(!found.has_code);
}

#[test]
fn inline_code_alone_is_no_code_block() {
    let found = sniff("<p><code>x</code></p>", false, false);
    assert!(!found.has_code);
}

#[test]
fn empty_fragment_needs_nothing() {
    assert_eq!(sniff("", false, false), Sniffed { has_code: false, has_math: false });
}

#[test]
fn contains_finds_needle_at_every_position() {
    assert!(contains(b"abcdef", b"abc"));
    assert!(contains(b"abcdef", b"cde"));
    assert!(contains(b"abcdef", b"def"));
    assert!(contains(b"abcdef", b"abcdef"));
    assert!(!contains(b"abcdef", b"abd"));
    assert!(!contains(b"abcdef", b"efg"));
}

#[test]
fn contains_handles_empty_and_long_needles() {
    assert!(contains(b"abc", b""));
    assert!(contains(b"", b""));
    assert!(!contains(b"", b"a"));
    assert!(!contains(b"ab", b"abc"));
}

#[test]
fn contains_finds_needle_after_a_partial_match() {
    assert!(contains(b"#{#{{", b"#{{"));
    assert!(contains(b"</code></code></pre>", b"</code></pre>"));
}

#[test]
fn rendered_fenced_block_is_sniffed_as_code() {
    let fragment = render("```\nlet x = 1;\n```\n", false);
    assert!(sniff(&fragment, false, false).has_code);
    assert!(!sniff(&fragment, true, false).has_code);
}

#[test]
fn rendered_heading_needs_nothing() {
    let fragment = render("# Hi", false);
    assert_eq!(sniff(&fragment, false, false), Sniffed { has_code: false, has_math: false });
}
