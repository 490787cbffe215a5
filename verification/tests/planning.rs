use markdown2html_converter::{
    assemble, body_order, emission_plan, emitted_slots, head_order, AssetSlot, AssetSource,
    Document, Element, Gate, Gates, Instruction, ResolvedAssets,
};

fn shipped(text: &str) -> AssetSource {
    AssetSource::Embedded(text.to_string())
}

fn assets() -> ResolvedAssets {
    ResolvedAssets {
        base_stylesheet: shipped("BASE"),
        cjk_font_stylesheet: shipped("CJK"),
        cjk_mono_font_stylesheet: shipped("MONO"),
        highlight_script: shipped("HLJS"),
        highlight_stylesheet: shipped("HLCSS"),
        math_config_script: shipped("MATHCFG"),
        math_script: shipped("MATH"),
        webfont_loader_script: shipped("WEBFONT"),
    }
}

fn document(has_code: bool, has_math: bool, include_fonts: bool) -> Document {
    Document {
        title: "T".to_string(),
        generator: "G".to_string(),
        gates: Gates { has_code, has_math, include_fonts },
        fragment: "<p>x</p>".to_string(),
        assets: assets(),
    }
}

const HEAD: &str = "<!DOCTYPE html><html><head><meta charset=UTF-8><meta name=\"viewport\" content=\"width=device-width, initial-scale=1, shrink-to-fit=no\"><meta name=\"generator\" content=\"G\"/><title>T</title><style>BASE</style>";

#[test]
fn bare_document_holds_only_the_base_stylesheet() {
    let html = assemble(&emission_plan(&document(false, false, false))).unwrap();
    let expected = format!(
        "{}</head><body><article class=\"markdown-body\"><p>x</p></article></body></html>",
        HEAD
    );
    assert_eq!(html, expected);
}

#[test]
fn full_document_holds_every_slot_in_order() {
    let html = assemble(&emission_plan(&document(true, true, true))).unwrap();
    let expected = format!(
        "{}<style>CJK</style><style>MONO</style><script>HLJS</script><style>HLCSS</style><script>MATHCFG</script><script>MATH</script></head><body><article class=\"markdown-body\"><p>x</p></article><script>WEBFONT</script></body></html>",
        HEAD
    );
    assert_eq!(html, expected);
}

#[test]
fn fonts_gate_opens_both_font_sheets_and_the_loader() {
    let html = assemble(&emission_plan(&document(false, false, true))).unwrap();
    let expected = format!(
        "{}<style>CJK</style><style>MONO</style></head><body><article class=\"markdown-body\"><p>x</p></article><script>WEBFONT</script></body></html>",
        HEAD
    );
    assert_eq!(html, expected);
}

#[test]
fn code_gate_opens_the_highlighter() {
    let html = assemble(&emission_plan(&document(true, false, false))).unwrap();
    let expected = format!(
        "{}<script>HLJS</script><style>HLCSS</style></head><body><article class=\"markdown-body\"><p>x</p></article></body></html>",
        HEAD
    );
    assert_eq!(html, expected);
}

#[test]
fn math_gate_opens_the_math_scripts() {
    let html = assemble(&emission_plan(&document(false, true, false))).unwrap();
    let expected = format!(
        "{}<script>MATHCFG</script><script>MATH</script></head><body><article class=\"markdown-body\"><p>x</p></article></body></html>",
        HEAD
    );
    assert_eq!(html, expected);
}

#[test]
fn every_gate_combination_assembles() {
    for bits in 0..8 {
        let doc = document(bits & 1 != 0, bits & 2 != 0, bits & 4 != 0);
        assert!(assemble(&emission_plan(&doc)).is_ok());
    }
}

#[test]
fn plan_starts_with_the_doctype_and_ends_with_html() {
    let plan = emission_plan(&document(true, true, true));
    assert!(matches!(&plan[0], Instruction::Token(text) if text == "<!DOCTYPE html>"));
    assert!(matches!(&plan[1], Instruction::Open(Element::Html)));
    assert!(matches!(&plan[plan.len() - 1], Instruction::Close(Element::Html)));
    assert!(matches!(&plan[plan.len() - 2], Instruction::Close(Element::Body)));
}

#[test]
fn override_source_is_planned_as_untrusted() {
    let mut doc = document(false, false, false);
    doc.assets.base_stylesheet = AssetSource::Override("a</style>b".to_string());
    let plan = emission_plan(&doc);
    assert!(plan.iter().any(|i| matches!(i, Instruction::Untrusted(text) if text == "a</style>b")));
    assert!(!plan.iter().any(|i| matches!(i, Instruction::Trusted(text) if text == "BASE")));
    let html = assemble(&plan).unwrap();
    assert!(html.contains("<style>a<\\/style>b</style>"));
    assert!(!html.contains("BASE"));
}

#[test]
fn title_is_planned_as_untrusted() {
    let mut doc = document(false, false, false);
    doc.title = "</title><script>alert(1)</script>".to_string();
    let html = assemble(&emission_plan(&doc)).unwrap();
    assert!(html.contains("<title>&lt;/title&gt;&lt;script&gt;alert(1)&lt;/script&gt;</title>"));
}

#[test]
fn emitted_slots_follow_the_gates() {
    assert_eq!(
        emitted_slots(Gates { has_code: false, has_math: false, include_fonts: false }),
        vec![AssetSlot::BaseStylesheet]
    );
    assert_eq!(
        emitted_slots(Gates { has_code: true, has_math: true, include_fonts: true }),
        vec![
            AssetSlot::BaseStylesheet,
            AssetSlot::CjkFontStylesheet,
            AssetSlot::CjkMonoFontStylesheet,
            AssetSlot::HighlightScript,
            AssetSlot::HighlightStylesheet,
            AssetSlot::MathConfigScript,
            AssetSlot::MathScript,
            AssetSlot::WebfontLoaderScript,
        ]
    );
    assert_eq!(
        emitted_slots(Gates { has_code: true, has_math: false, include_fonts: false }),
        vec![
            AssetSlot::BaseStylesheet,
            AssetSlot::HighlightScript,
            AssetSlot::HighlightStylesheet,
        ]
    );
    assert_eq!(
        emitted_slots(Gates { has_code: false, has_math: true, include_fonts: false }),
        vec![AssetSlot::BaseStylesheet, AssetSlot::MathConfigScript, AssetSlot::MathScript]
    );
    assert_eq!(
        emitted_slots(Gates { has_code: false, has_math: false, include_fonts: true }),
        vec![
            AssetSlot::BaseStylesheet,
            AssetSlot::CjkFontStylesheet,
            AssetSlot::CjkMonoFontStylesheet,
            AssetSlot::WebfontLoaderScript,
        ]
    );
}

#[test]
fn orders_list_each_slot_once() {
    let head = head_order();
    let body = body_order();
    assert_eq!(head.len(), 7);
    assert_eq!(body.len(), 1);
    assert_eq!(head[0].gate, Gate::Always);
    assert_eq!(head[0].slot, AssetSlot::BaseStylesheet);
    assert_eq!(head[0].element, Element::Style);
    assert_eq!(head[3].element, Element::Script);
    assert_eq!(body[0].slot, AssetSlot::WebfontLoaderScript);
    assert_eq!(body[0].gate, Gate::Fonts);
    let gates = Gates { has_code: true, has_math: false, include_fonts: false };
    assert!(Gate::Always.lets_through(gates));
    assert!(Gate::Code.lets_through(gates));
    assert!(!Gate::Math.lets_through(gates));
    assert!(!Gate::Fonts.lets_through(gates));
}

#[test]
fn generator_cannot_end_its_attribute() {
    let mut doc = document(false, false, false);
    doc.generator = "a\"><script>x</script> & b".to_string();
    let html = assemble(&emission_plan(&doc)).unwrap();
    assert!(html.contains(
        "<meta name=\"generator\" content=\"a&quot;&gt;&lt;script&gt;x&lt;/script&gt; &amp; b\"/>"
    ));
    assert!(!html.contains("<script>x"));
}
