//! The emission plan of a document: which pieces are written, in which order.
//!
//! The optional sections are not nested branches. They are two fixed lists of
//! placements, each a gate, a slot and the element that holds it, walked once.

use vstd::prelude::*;
use vstd::utf8::encode_utf8;

use crate::assembler::{
    balanced, blank, context_of, initial_state, lemma_run_plan_concat, neutral, plan_view,
    raw_text_mode, run_plan, stack_after, step, AssemblyState, Element, Instruction, Step,
};
use crate::error::ConvertError;
use crate::escape::{attribute_escaped, escape, escaped, text_escaped, Context};
use crate::assets::{AssetSlot, AssetSource, ResolvedAssets, SourceView, SourcesView};

verus! {

/// The switches that decide which optional sections a document gets.
#[derive(Clone, Copy, Debug, PartialEq, Eq, Structural)]
pub struct Gates {
    /// The fragment holds a code block and highlighting is allowed.
    pub has_code: bool,
    /// The fragment holds math and math rendering is allowed.
    pub has_math: bool,
    /// The fonts for Chinese, Japanese and Korean text are wanted.
    pub include_fonts: bool,
}

/// The condition under which a placement is written.
#[derive(Clone, Copy, Debug, PartialEq, Eq, Structural)]
pub enum Gate {
    Always,
    Fonts,
    Code,
    Math,
}

impl Gate {
    /// Whether a section behind it is written.
    pub open spec fn is_open(self, gates: Gates) -> bool {
        match self {
            Gate::Always => true,
            Gate::Fonts => gates.include_fonts,
            Gate::Code => gates.has_code,
            Gate::Math => gates.has_math,
        }
    }

    /// Whether a section behind it is written.
    pub fn lets_through(self, gates: Gates) -> (open: bool)
        ensures
            open == self.is_open(gates),
    {
        match self {
            Gate::Always => true,
            Gate::Fonts => gates.include_fonts,
            Gate::Code => gates.has_code,
            Gate::Math => gates.has_math,
        }
    }
}

/// One optional section: the slot, the element around it and its gate.
#[derive(Clone, Copy, Debug, PartialEq, Eq, Structural)]
pub struct Placement {
    pub gate: Gate,
    pub slot: AssetSlot,
    pub element: Element,
}

/// The sections of the head, in the order in which they are written:
/// stylesheets before scripts of the same feature, fonts before highlighting,
/// highlighting before math.
pub open spec fn head_placements() -> Seq<Placement> {
    seq![
        Placement { gate: Gate::Always, slot: AssetSlot::BaseStylesheet, element: Element::Style },
        Placement { gate: Gate::Fonts, slot: AssetSlot::CjkFontStylesheet, element: Element::Style },
        Placement {
            gate: Gate::Fonts,
            slot: AssetSlot::CjkMonoFontStylesheet,
            element: Element::Style,
        },
        Placement { gate: Gate::Code, slot: AssetSlot::HighlightScript, element: Element::Script },
        Placement {
            gate: Gate::Code,
            slot: AssetSlot::HighlightStylesheet,
            element: Element::Style,
        },
        Placement { gate: Gate::Math, slot: AssetSlot::MathConfigScript, element: Element::Script },
        Placement { gate: Gate::Math, slot: AssetSlot::MathScript, element: Element::Script },
    ]
}

/// The sections at the end of the body.
pub open spec fn body_placements() -> Seq<Placement> {
    seq![
        Placement {
            gate: Gate::Fonts,
            slot: AssetSlot::WebfontLoaderScript,
            element: Element::Script,
        },
    ]
}

/// The sections of the head.
pub fn head_order() -> (order: Vec<Placement>)
    ensures
        order@ == head_placements(),
{
    let order = vec![
        Placement { gate: Gate::Always, slot: AssetSlot::BaseStylesheet, element: Element::Style },
        Placement { gate: Gate::Fonts, slot: AssetSlot::CjkFontStylesheet, element: Element::Style },
        Placement {
            gate: Gate::Fonts,
            slot: AssetSlot::CjkMonoFontStylesheet,
            element: Element::Style,
        },
        Placement { gate: Gate::Code, slot: AssetSlot::HighlightScript, element: Element::Script },
        Placement {
            gate: Gate::Code,
            slot: AssetSlot::HighlightStylesheet,
            element: Element::Style,
        },
        Placement { gate: Gate::Math, slot: AssetSlot::MathConfigScript, element: Element::Script },
        Placement { gate: Gate::Math, slot: AssetSlot::MathScript, element: Element::Script },
    ];
    assert(order@ =~= head_placements());
    order
}

/// The sections at the end of the body.
pub fn body_order() -> (order: Vec<Placement>)
    ensures
        order@ == body_placements(),
{
    let order = vec![
        Placement {
            gate: Gate::Fonts,
            slot: AssetSlot::WebfontLoaderScript,
            element: Element::Script,
        },
    ];
    assert(order@ =~= body_placements());
    order
}

/// The slots among the placements whose gate is open, in order.
pub open spec fn emitted(gates: Gates, placements: Seq<Placement>) -> Seq<AssetSlot>
    decreases placements.len(),
{
    if placements.len() == 0 {
        Seq::<AssetSlot>::empty()
    } else if placements.last().gate.is_open(gates) {
        emitted(gates, placements.drop_last()).push(placements.last().slot)
    } else {
        emitted(gates, placements.drop_last())
    }
}

/// The slots that a document with these gates holds, in the order in which
/// they are written.
pub fn emitted_slots(gates: Gates) -> (slots: Vec<AssetSlot>)
    ensures
        slots@ == emitted(gates, head_placements() + body_placements()),
{
    let mut order = head_order();
    let mut tail = body_order();
    order.append(&mut tail);
    let mut slots: Vec<AssetSlot> = Vec::new();
    let mut i: usize = 0;
    while i < order.len()
        invariant
            i <= order@.len(),
            slots@ == emitted(gates, order@.take(i as int)),
        decreases order@.len() - i,
    {
        proof {
            assert(order@.take(i + 1).drop_last() =~= order@.take(i as int));
        }
        if order[i].gate.lets_through(gates) {
            slots.push(order[i].slot);
        }
        i += 1;
    }
    proof {
        assert(order@.take(i as int) =~= order@);
    }
    slots
}

/// How a source enters the document: text that ships with the program as it
/// is, text of a user's file escaped.
pub open spec fn source_step(source: SourceView) -> Step {
    match source {
        SourceView::Embedded(text) => Step::Trusted(text),
        SourceView::Override(text) => Step::Untrusted(text),
    }
}

/// An element around some instructions.
pub open spec fn wrap(element: Element, inner: Seq<Step>) -> Seq<Step> {
    seq![Step::Open(element)] + inner + seq![Step::Close(element)]
}

/// The instructions of the placements whose gate is open: for each, its
/// element around its source.
pub open spec fn blocks(assets: SourcesView, gates: Gates, placements: Seq<Placement>) -> Seq<
    Step,
>
    decreases placements.len(),
{
    if placements.len() == 0 {
        Seq::<Step>::empty()
    } else {
        let last = placements.last();
        blocks(assets, gates, placements.drop_last()) + if last.gate.is_open(gates) {
            wrap(last.element, seq![source_step(assets.source_of(last.slot))])
        } else {
            Seq::<Step>::empty()
        }
    }
}

/// All that a document is made of.
#[derive(Clone, Debug)]
pub struct Document {
    /// The title, as the user gave it; it is escaped on insertion.
    pub title: String,
    /// The value of the generator line; it is escaped for its attribute.
    pub generator: String,
    pub gates: Gates,
    /// The rendered article, written as it is.
    pub fragment: String,
    pub assets: ResolvedAssets,
}

/// A document as the contracts see it.
pub struct DocumentView {
    pub title: Seq<char>,
    pub generator: Seq<char>,
    pub gates: Gates,
    pub fragment: Seq<char>,
    pub assets: SourcesView,
}

impl View for Document {
    type V = DocumentView;

    open spec fn view(&self) -> DocumentView {
        DocumentView {
            title: self.title@,
            generator: self.generator@,
            gates: self.gates,
            fragment: self.fragment@,
            assets: self.assets@,
        }
    }
}

/// The fixed lines at the start of the head; `generator` is the escaped
/// value of the generator line.
pub open spec fn head_lines(generator: Seq<char>) -> Seq<Step> {
    seq![
        Step::Token("<meta charset=UTF-8>"@),
        Step::Token(
            "<meta name=\"viewport\" content=\"width=device-width, initial-scale=1, shrink-to-fit=no\">"@,
        ),
        Step::Token("<meta name=\"generator\" content=\""@),
        Step::Token(generator),
        Step::Token("\"/>"@),
    ]
}

/// What stands inside the head of a document.
pub open spec fn head_content(document: DocumentView) -> Seq<Step> {
    head_lines(attribute_escaped(document.generator)) + wrap(
        Element::Title,
        seq![Step::Untrusted(document.title)],
    )
        + blocks(document.assets, document.gates, head_placements())
}

/// What stands inside the body of a document.
pub open spec fn body_content(document: DocumentView) -> Seq<Step> {
    wrap(Element::Article, seq![Step::Trusted(document.fragment)]) + blocks(
        document.assets,
        document.gates,
        body_placements(),
    )
}

/// The plan of a document: the doctype, then the head with its lines, the
/// title and the sections whose gate is open, then the body with the article
/// and its own sections.
pub open spec fn document_plan(document: DocumentView) -> Seq<Step> {
    seq![Step::Token("<!DOCTYPE html>"@)] + wrap(
        Element::Html,
        wrap(Element::Head, head_content(document)) + wrap(Element::Body, body_content(document)),
    )
}

/// One plan after another.
fn joined(first: Vec<Instruction>, second: Vec<Instruction>) -> (both: Vec<Instruction>)
    ensures
        plan_view(both@) == plan_view(first@) + plan_view(second@),
{
    let mut both = first;
    let mut rest = second;
    both.append(&mut rest);
    assert(plan_view(both@) =~= plan_view(first@) + plan_view(second@));
    both
}

/// A plan of one instruction.
fn single(instruction: Instruction) -> (plan: Vec<Instruction>)
    ensures
        plan_view(plan@) == seq![instruction@],
{
    let mut plan: Vec<Instruction> = Vec::new();
    plan.push(instruction);
    assert(plan_view(plan@) =~= seq![instruction@]);
    plan
}

/// An element around a plan.
fn wrapped(element: Element, inner: Vec<Instruction>) -> (plan: Vec<Instruction>)
    ensures
        plan_view(plan@) == wrap(element, plan_view(inner@)),
{
    joined(joined(single(Instruction::Open(element)), inner), single(Instruction::Close(element)))
}

/// The instruction by which a source enters the document.
fn source_instruction(source: &AssetSource) -> (instruction: Instruction)
    ensures
        instruction@ == source_step(source@),
{
    match source {
        AssetSource::Embedded(text) => Instruction::Trusted(text.clone()),
        AssetSource::Override(text) => Instruction::Untrusted(text.clone()),
    }
}

/// The instructions of the placements whose gate is open.
fn asset_blocks(assets: &ResolvedAssets, gates: Gates, placements: &Vec<Placement>) -> (plan: Vec<
    Instruction,
>)
    ensures
        plan_view(plan@) == blocks(assets@, gates, placements@),
{
    let mut plan: Vec<Instruction> = Vec::new();
    let mut i: usize = 0;
    proof {
        assert(plan_view(plan@) =~= Seq::<Step>::empty());
    }
    while i < placements.len()
        invariant
            i <= placements@.len(),
            plan_view(plan@) == blocks(assets@, gates, placements@.take(i as int)),
        decreases placements@.len() - i,
    {
        proof {
            assert(placements@.take(i + 1).drop_last() =~= placements@.take(i as int));
        }
        let placement = placements[i];
        if placement.gate.lets_through(gates) {
            let block = wrapped(
                placement.element,
                single(source_instruction(assets.get(placement.slot))),
            );
            plan = joined(plan, block);
        } else {
            assert(plan_view(plan@) + Seq::<Step>::empty() =~= plan_view(plan@));
        }
        i += 1;
    }
    proof {
        assert(placements@.take(i as int) =~= placements@);
    }
    plan
}

/// The fixed lines at the start of the head.
fn head_line_tokens(generator: &str) -> (plan: Vec<Instruction>)
    ensures
        plan_view(plan@) == head_lines(generator@),
{
    let mut plan: Vec<Instruction> = Vec::new();
    plan.push(Instruction::Token("<meta charset=UTF-8>".to_owned()));
    plan.push(
        Instruction::Token(
            "<meta name=\"viewport\" content=\"width=device-width, initial-scale=1, shrink-to-fit=no\">".to_owned(),
        ),
    );
    plan.push(Instruction::Token("<meta name=\"generator\" content=\"".to_owned()));
    plan.push(Instruction::Token(generator.to_owned()));
    plan.push(Instruction::Token("\"/>".to_owned()));
    assert(plan_view(plan@) =~= head_lines(generator@));
    plan
}

/// Lays out the plan of a document.
pub fn emission_plan(document: &Document) -> (plan: Vec<Instruction>)
    ensures
        plan_view(plan@) == document_plan(document@),
{
    let title = wrapped(Element::Title, single(Instruction::Untrusted(document.title.clone())));
    let head_sections = asset_blocks(&document.assets, document.gates, &head_order());
    let head = wrapped(
        Element::Head,
        joined(
            joined(
                head_line_tokens(escape(Context::Attribute, document.generator.as_str()).as_str()),
                title,
            ),
            head_sections,
        ),
    );
    let article = wrapped(
        Element::Article,
        single(Instruction::Trusted(document.fragment.clone())),
    );
    let body_sections = asset_blocks(&document.assets, document.gates, &body_order());
    let body = wrapped(Element::Body, joined(article, body_sections));
    joined(
        single(Instruction::Token("<!DOCTYPE html>".to_owned())),
        wrapped(Element::Html, joined(head, body)),
    )
}

/// Two plans in a row, each of which leaves the open elements as they were,
/// leave them as they were.
pub proof fn lemma_neutral_concat(first: Seq<Step>, second: Seq<Step>)
    requires
        neutral(first),
        neutral(second),
    ensures
        neutral(first + second),
{
    assert forall|stack: Seq<Element>| #[trigger]
        stack_after(stack, first + second) == Some(stack) by {
        crate::assembler::lemma_stack_after_concat(stack, first, second);
        assert(stack_after(stack, first) == Some(stack));
        assert(stack_after(stack, second) == Some(stack));
    }
}

/// An element around a plan that leaves the open elements as they were
/// leaves them as they were.
pub proof fn lemma_neutral_wrap(element: Element, inner: Seq<Step>)
    requires
        neutral(inner),
    ensures
        neutral(wrap(element, inner)),
{
    assert forall|stack: Seq<Element>| #[trigger]
        stack_after(stack, wrap(element, inner)) == Some(stack) by {
        let open = seq![Step::Open(element)];
        let close = seq![Step::Close(element)];
        crate::assembler::lemma_stack_after_concat(stack, open + inner, close);
        crate::assembler::lemma_stack_after_concat(stack, open, inner);
        assert(open.drop_first() =~= Seq::<Step>::empty());
        assert(close.drop_first() =~= Seq::<Step>::empty());
        assert(stack_after(stack, open) == Some(stack.push(element))) by {
            assert(stack_after(stack.push(element), open.drop_first()) == Some(
                stack.push(element),
            ));
        }
        assert(stack_after(stack.push(element), inner) == Some(stack.push(element)));
        assert(stack.push(element).drop_last() =~= stack);
        assert(stack_after(stack.push(element), close) == Some(stack)) by {
            assert(stack_after(stack, close.drop_first()) == Some(stack));
        }
    }
}

/// A plan without tags leaves the open elements as they were.
pub proof fn lemma_neutral_text(plan: Seq<Step>)
    requires
        forall|i: int| 0 <= i < plan.len() ==> !(plan[i] is Open) && !(plan[i] is Close),
    ensures
        neutral(plan),
    decreases plan.len(),
{
    if plan.len() > 0 {
        lemma_neutral_text(plan.drop_first());
    }
    assert forall|stack: Seq<Element>| #[trigger] stack_after(stack, plan) == Some(stack) by {
        if plan.len() > 0 {
            assert(!(plan[0] is Open) && !(plan[0] is Close));
            assert(stack_after(stack, plan.drop_first()) == Some(stack));
        }
    }
}

/// The sections of any placements leave the open elements as they were.
pub proof fn lemma_blocks_neutral(assets: SourcesView, gates: Gates, placements: Seq<Placement>)
    ensures
        neutral(blocks(assets, gates, placements)),
    decreases placements.len(),
{
    if placements.len() == 0 {
        lemma_neutral_text(blocks(assets, gates, placements));
    } else {
        let last = placements.last();
        lemma_blocks_neutral(assets, gates, placements.drop_last());
        let inner = seq![source_step(assets.source_of(last.slot))];
        lemma_neutral_text(inner);
        lemma_neutral_wrap(last.element, inner);
        lemma_neutral_text(Seq::<Step>::empty());
        if last.gate.is_open(gates) {
            lemma_neutral_concat(
                blocks(assets, gates, placements.drop_last()),
                wrap(last.element, inner),
            );
        } else {
            lemma_neutral_concat(
                blocks(assets, gates, placements.drop_last()),
                Seq::<Step>::empty(),
            );
        }
    }
}

/// Every document's plan is balanced, whatever its title, fragment, gates
/// and sources: assembling it never fails.
pub proof fn lemma_document_plan_balanced(document: DocumentView)
    ensures
        balanced(document_plan(document)),
        crate::assembler::assembled(document_plan(document)) is Ok,
{
    let lines = head_lines(attribute_escaped(document.generator));
    let title = seq![Step::Untrusted(document.title)];
    let article = seq![Step::Trusted(document.fragment)];
    let doctype = seq![Step::Token("<!DOCTYPE html>"@)];
    lemma_neutral_text(lines);
    lemma_neutral_text(title);
    lemma_neutral_text(article);
    lemma_neutral_text(doctype);
    lemma_neutral_wrap(Element::Title, title);
    lemma_neutral_wrap(Element::Article, article);
    lemma_blocks_neutral(document.assets, document.gates, head_placements());
    lemma_blocks_neutral(document.assets, document.gates, body_placements());
    lemma_neutral_concat(lines, wrap(Element::Title, title));
    lemma_neutral_concat(
        lines + wrap(Element::Title, title),
        blocks(document.assets, document.gates, head_placements()),
    );
    lemma_neutral_concat(
        wrap(Element::Article, article),
        blocks(document.assets, document.gates, body_placements()),
    );
    lemma_neutral_wrap(Element::Head, head_content(document));
    lemma_neutral_wrap(Element::Body, body_content(document));
    lemma_neutral_concat(
        wrap(Element::Head, head_content(document)),
        wrap(Element::Body, body_content(document)),
    );
    lemma_neutral_wrap(
        Element::Html,
        wrap(Element::Head, head_content(document)) + wrap(Element::Body, body_content(document)),
    );
    lemma_neutral_concat(
        doctype,
        wrap(
            Element::Html,
            wrap(Element::Head, head_content(document)) + wrap(
                Element::Body,
                body_content(document),
            ),
        ),
    );
    assert(stack_after(Seq::<Element>::empty(), document_plan(document)) == Some(
        Seq::<Element>::empty(),
    ));
    crate::assembler::lemma_assembled_iff_balanced(document_plan(document));
}

/// The context that text inside an element is escaped for.
pub open spec fn element_context(element: Element) -> Context {
    match element {
        Element::Style => Context::Style,
        Element::Script => Context::Script,
        _ => Context::Text,
    }
}

/// The text by which a source enters an element: text that ships with the
/// program as it is, the text of a user's file escaped for that element.
pub open spec fn source_text(element: Element, source: SourceView) -> Seq<char> {
    match source {
        SourceView::Embedded(text) => text,
        SourceView::Override(text) => escaped(element_context(element), text),
    }
}

/// A plan of one instruction does what the instruction does.
pub proof fn lemma_run_single(state: AssemblyState, instruction: Step)
    ensures
        run_plan(state, seq![instruction]) == step(state, instruction),
{
    let one = seq![instruction];
    assert(one.first() == instruction);
    assert(one.drop_first() =~= Seq::<Step>::empty());
    match step(state, instruction) {
        Ok(next) => {
            assert(run_plan(next, one.drop_first()) == Ok::<AssemblyState, ConvertError>(next));
        },
        Err(_) => {},
    }
}

/// What a section writes. Wherever it stands, a `style` or `script` section
/// adds its opening tag, the text of its source and its closing tag, and
/// leaves the open elements as they were. Embedded text is never escaped;
/// the text of a user's file is always escaped, and for the element that
/// holds it.
pub proof fn lemma_asset_block(state: AssemblyState, element: Element, source: SourceView)
    requires
        element == Element::Style || element == Element::Script,
    ensures
        run_plan(state, wrap(element, seq![source_step(source)])) == Ok::<
            AssemblyState,
            ConvertError,
        >(
            AssemblyState {
                stack: state.stack,
                buffer: state.buffer + element.open_tag() + source_text(element, source)
                    + element.close_tag(),
            },
        ),
{
    let open = seq![Step::Open(element)];
    let inner = seq![source_step(source)];
    let close = seq![Step::Close(element)];
    lemma_run_plan_concat(state, open + inner, close);
    lemma_run_plan_concat(state, open, inner);
    lemma_run_single(state, Step::Open(element));
    let opened = AssemblyState {
        stack: state.stack.push(element),
        buffer: state.buffer + element.open_tag(),
    };
    assert(opened.stack[state.stack.len() as int].is_raw_text());
    assert(raw_text_mode(opened.stack));
    assert(context_of(opened.stack) == element_context(element));
    lemma_run_single(opened, source_step(source));
    let filled = AssemblyState {
        buffer: opened.buffer + source_text(element, source),
        ..opened
    };
    assert(step(opened, source_step(source)) == Ok::<AssemblyState, ConvertError>(filled));
    lemma_run_single(filled, Step::Close(element));
    assert(filled.stack.drop_last() =~= state.stack);
}

/// The text that the sections of some placements write.
pub open spec fn blocks_text(assets: SourcesView, gates: Gates, placements: Seq<Placement>) -> Seq<
    char,
>
    decreases placements.len(),
{
    if placements.len() == 0 {
        Seq::<char>::empty()
    } else {
        let last = placements.last();
        blocks_text(assets, gates, placements.drop_last()) + if last.gate.is_open(gates) {
            last.element.open_tag() + source_text(last.element, assets.source_of(last.slot))
                + last.element.close_tag()
        } else {
            Seq::<char>::empty()
        }
    }
}

/// Placements that put their slots into `style` and `script` elements only.
pub open spec fn in_style_or_script(placements: Seq<Placement>) -> bool {
    forall|i: int|
        0 <= i < placements.len() ==> (#[trigger] placements[i]).element == Element::Style
            || placements[i].element == Element::Script
}

/// The sections of some placements write `blocks_text` and leave the open
/// elements as they were.
pub proof fn lemma_blocks_run(
    state: AssemblyState,
    assets: SourcesView,
    gates: Gates,
    placements: Seq<Placement>,
)
    requires
        in_style_or_script(placements),
    ensures
        run_plan(state, blocks(assets, gates, placements)) == Ok::<AssemblyState, ConvertError>(
            AssemblyState {
                stack: state.stack,
                buffer: state.buffer + blocks_text(assets, gates, placements),
            },
        ),
    decreases placements.len(),
{
    if placements.len() == 0 {
        assert(state.buffer + Seq::<char>::empty() =~= state.buffer);
    } else {
        let last = placements.last();
        let front = placements.drop_last();
        assert forall|i: int| 0 <= i < front.len() implies (#[trigger] front[i]).element
            == Element::Style || front[i].element == Element::Script by {
            assert(front[i] == placements[i]);
        }
        lemma_blocks_run(state, assets, gates, front);
        let middle = AssemblyState {
            stack: state.stack,
            buffer: state.buffer + blocks_text(assets, gates, front),
        };
        let block = if last.gate.is_open(gates) {
            wrap(last.element, seq![source_step(assets.source_of(last.slot))])
        } else {
            Seq::<Step>::empty()
        };
        lemma_run_plan_concat(state, blocks(assets, gates, front), block);
        if last.gate.is_open(gates) {
            assert(placements[placements.len() - 1] == last);
            lemma_asset_block(middle, last.element, assets.source_of(last.slot));
            let text = last.element.open_tag() + source_text(
                last.element,
                assets.source_of(last.slot),
            ) + last.element.close_tag();
            assert(middle.buffer + last.element.open_tag() + source_text(
                last.element,
                assets.source_of(last.slot),
            ) + last.element.close_tag() =~= state.buffer + (blocks_text(assets, gates, front)
                + text));
        } else {
            assert(middle.buffer =~= state.buffer + (blocks_text(assets, gates, front)
                + Seq::<char>::empty()));
        }
    }
}

/// An element around a plan writes its opening tag, what the plan writes
/// inside it, and its closing tag, and leaves the open elements as they were.
pub proof fn lemma_wrap_run(
    state: AssemblyState,
    element: Element,
    inner: Seq<Step>,
    text: Seq<char>,
)
    requires
        run_plan(
            AssemblyState {
                stack: state.stack.push(element),
                buffer: state.buffer + element.open_tag(),
            },
            inner,
        ) == Ok::<AssemblyState, ConvertError>(
            AssemblyState {
                stack: state.stack.push(element),
                buffer: state.buffer + element.open_tag() + text,
            },
        ),
    ensures
        run_plan(state, wrap(element, inner)) == Ok::<AssemblyState, ConvertError>(
            AssemblyState {
                stack: state.stack,
                buffer: state.buffer + element.open_tag() + text + element.close_tag(),
            },
        ),
{
    let open = seq![Step::Open(element)];
    let close = seq![Step::Close(element)];
    lemma_run_plan_concat(state, open + inner, close);
    lemma_run_plan_concat(state, open, inner);
    lemma_run_single(state, Step::Open(element));
    let filled = AssemblyState {
        stack: state.stack.push(element),
        buffer: state.buffer + element.open_tag() + text,
    };
    lemma_run_single(filled, Step::Close(element));
    assert(filled.stack.drop_last() =~= state.stack);
}

/// Text that is inserted where no element keeps its content as it is: left
/// out where it is nothing but whitespace.
pub open spec fn unless_blank(text: Seq<char>, content: Seq<char>) -> Seq<char> {
    if blank(encode_utf8(text)) {
        Seq::<char>::empty()
    } else {
        content
    }
}

/// The text of the fixed lines at the start of the head.
pub open spec fn head_lines_text(generator: Seq<char>) -> Seq<char> {
    "<meta charset=UTF-8>"@
        + "<meta name=\"viewport\" content=\"width=device-width, initial-scale=1, shrink-to-fit=no\">"@
        + "<meta name=\"generator\" content=\""@ + generator + "\"/>"@
}

/// The text inside the head of a document.
pub open spec fn head_text(document: DocumentView) -> Seq<char> {
    head_lines_text(attribute_escaped(document.generator)) + (Element::Title.open_tag() + unless_blank(
        document.title,
        text_escaped(document.title),
    ) + Element::Title.close_tag()) + blocks_text(
        document.assets,
        document.gates,
        head_placements(),
    )
}

/// The text inside the body of a document.
pub open spec fn body_text(document: DocumentView) -> Seq<char> {
    (Element::Article.open_tag() + unless_blank(document.fragment, document.fragment)
        + Element::Article.close_tag()) + blocks_text(
        document.assets,
        document.gates,
        body_placements(),
    )
}

/// The text of a document before minification, written out: the doctype,
/// the head with its lines, the escaped title and its sections, the body
/// with the article and its sections.
pub open spec fn document_text(document: DocumentView) -> Seq<char> {
    "<!DOCTYPE html>"@ + (Element::Html.open_tag() + ((Element::Head.open_tag() + head_text(
        document,
    ) + Element::Head.close_tag()) + (Element::Body.open_tag() + body_text(document)
        + Element::Body.close_tag())) + Element::Html.close_tag())
}

/// The fixed lines at the start of the head are written as they are.
pub proof fn lemma_head_lines_run(state: AssemblyState, generator: Seq<char>)
    ensures
        run_plan(state, head_lines(generator)) == Ok::<AssemblyState, ConvertError>(
            AssemblyState { buffer: state.buffer + head_lines_text(generator), ..state },
        ),
{
    let a = Step::Token("<meta charset=UTF-8>"@);
    let b = Step::Token(
        "<meta name=\"viewport\" content=\"width=device-width, initial-scale=1, shrink-to-fit=no\">"@,
    );
    let c = Step::Token("<meta name=\"generator\" content=\""@);
    let d = Step::Token(generator);
    let e = Step::Token("\"/>"@);
    assert(head_lines(generator) =~= seq![a] + seq![b] + seq![c] + seq![d] + seq![e]);
    lemma_run_plan_concat(state, seq![a] + seq![b] + seq![c] + seq![d], seq![e]);
    lemma_run_plan_concat(state, seq![a] + seq![b] + seq![c], seq![d]);
    lemma_run_plan_concat(state, seq![a] + seq![b], seq![c]);
    lemma_run_plan_concat(state, seq![a], seq![b]);
    lemma_run_single(state, a);
    let s1 = step(state, a)->Ok_0;
    lemma_run_single(s1, b);
    let s2 = step(s1, b)->Ok_0;
    lemma_run_single(s2, c);
    let s3 = step(s2, c)->Ok_0;
    lemma_run_single(s3, d);
    let s4 = step(s3, d)->Ok_0;
    lemma_run_single(s4, e);
    let s5 = step(s4, e)->Ok_0;
    assert(s5.buffer =~= state.buffer + head_lines_text(generator));
}

/// The text of every document, written out: assembling the plan of a
/// document gives exactly `document_text`.
#[verifier::rlimit(40)]
pub proof fn lemma_document_text(document: DocumentView)
    ensures
        crate::assembler::assembled(document_plan(document)) == Ok::<Seq<char>, ConvertError>(
            document_text(document),
        ),
{
    let empty = Seq::<Element>::empty();
    let doctype = Step::Token("<!DOCTYPE html>"@);
    let start = initial_state();
    lemma_run_single(start, doctype);
    let s0 = AssemblyState { stack: empty, buffer: start.buffer + "<!DOCTYPE html>"@ };
    assert(step(start, doctype) == Ok::<AssemblyState, ConvertError>(s0));
    let in_html = AssemblyState {
        stack: s0.stack.push(Element::Html),
        buffer: s0.buffer + Element::Html.open_tag(),
    };
    // The head.
    let in_head = AssemblyState {
        stack: in_html.stack.push(Element::Head),
        buffer: in_html.buffer + Element::Head.open_tag(),
    };
    let generator = attribute_escaped(document.generator);
    lemma_head_lines_run(in_head, generator);
    let after_lines = AssemblyState {
        buffer: in_head.buffer + head_lines_text(generator),
        ..in_head
    };
    let in_title = AssemblyState {
        stack: after_lines.stack.push(Element::Title),
        buffer: after_lines.buffer + Element::Title.open_tag(),
    };
    assert(!raw_text_mode(in_title.stack)) by {
        assert(in_title.stack =~= seq![Element::Html, Element::Head, Element::Title]);
    }
    assert(context_of(in_title.stack) == Context::Text);
    let title_text = unless_blank(document.title, text_escaped(document.title));
    lemma_run_single(in_title, Step::Untrusted(document.title));
    lemma_wrap_run(after_lines, Element::Title, seq![Step::Untrusted(document.title)], title_text);
    let after_title = AssemblyState {
        buffer: after_lines.buffer + Element::Title.open_tag() + title_text
            + Element::Title.close_tag(),
        ..after_lines
    };
    assert(in_style_or_script(head_placements()));
    lemma_blocks_run(after_title, document.assets, document.gates, head_placements());
    let title_plan = wrap(Element::Title, seq![Step::Untrusted(document.title)]);
    let head_blocks = blocks(document.assets, document.gates, head_placements());
    lemma_run_plan_concat(in_head, head_lines(generator) + title_plan, head_blocks);
    lemma_run_plan_concat(in_head, head_lines(generator), title_plan);
    assert(after_title.buffer + blocks_text(document.assets, document.gates, head_placements())
        =~= in_html.buffer + Element::Head.open_tag() + head_text(document));
    lemma_wrap_run(in_html, Element::Head, head_content(document), head_text(document));
    let after_head = AssemblyState {
        buffer: in_html.buffer + Element::Head.open_tag() + head_text(document)
            + Element::Head.close_tag(),
        ..in_html
    };
    // The body.
    let in_body = AssemblyState {
        stack: after_head.stack.push(Element::Body),
        buffer: after_head.buffer + Element::Body.open_tag(),
    };
    let in_article = AssemblyState {
        stack: in_body.stack.push(Element::Article),
        buffer: in_body.buffer + Element::Article.open_tag(),
    };
    assert(!raw_text_mode(in_article.stack)) by {
        assert(in_article.stack =~= seq![Element::Html, Element::Body, Element::Article]);
    }
    let article_text = unless_blank(document.fragment, document.fragment);
    lemma_run_single(in_article, Step::Trusted(document.fragment));
    lemma_wrap_run(in_body, Element::Article, seq![Step::Trusted(document.fragment)], article_text);
    let after_article = AssemblyState {
        buffer: in_body.buffer + Element::Article.open_tag() + article_text
            + Element::Article.close_tag(),
        ..in_body
    };
    assert(in_style_or_script(body_placements()));
    lemma_blocks_run(after_article, document.assets, document.gates, body_placements());
    let article_plan = wrap(Element::Article, seq![Step::Trusted(document.fragment)]);
    let body_blocks = blocks(document.assets, document.gates, body_placements());
    lemma_run_plan_concat(in_body, article_plan, body_blocks);
    assert(after_article.buffer + blocks_text(document.assets, document.gates, body_placements())
        =~= after_head.buffer + Element::Body.open_tag() + body_text(document));
    lemma_wrap_run(after_head, Element::Body, body_content(document), body_text(document));
    let after_body = AssemblyState {
        buffer: after_head.buffer + Element::Body.open_tag() + body_text(document)
            + Element::Body.close_tag(),
        ..after_head
    };
    // The whole.
    let head_plan = wrap(Element::Head, head_content(document));
    let body_plan = wrap(Element::Body, body_content(document));
    lemma_run_plan_concat(in_html, head_plan, body_plan);
    let inside = (Element::Head.open_tag() + head_text(document) + Element::Head.close_tag()) + (
    Element::Body.open_tag() + body_text(document) + Element::Body.close_tag());
    assert(after_body.buffer =~= s0.buffer + Element::Html.open_tag() + inside);
    assert(after_body.stack == in_html.stack);
    lemma_wrap_run(s0, Element::Html, head_plan + body_plan, inside);
    lemma_run_plan_concat(start, seq![doctype], wrap(Element::Html, head_plan + body_plan));
    let end = AssemblyState {
        stack: empty,
        buffer: s0.buffer + Element::Html.open_tag() + inside + Element::Html.close_tag(),
    };
    assert(end.buffer =~= document_text(document));
}

} // verus!
