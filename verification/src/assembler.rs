//! The incremental document builder.
//!
//! An `Assembler` takes the pieces of a document one by one. It keeps the
//! stack of elements that are open, refuses a closing tag that does not match
//! the innermost one, and escapes untrusted text for the element it lands in.
//! Inside `script`, `style`, `pre` and `code` every piece is written as it
//! comes; elsewhere inserted text that is nothing but whitespace is left out.
//! Trusted text and untrusted text go through the same state, so neither can
//! lose track of where in the document it is.

use vstd::prelude::*;
use vstd::string::{StringExecFns, StringSliceAdditionalSpecFns};
use vstd::utf8::encode_utf8;

use crate::error::ConvertError;
use crate::escape::{escape, escaped, Context};

verus! {

/// The elements that the builder opens and closes.
#[derive(Clone, Copy, Debug, PartialEq, Eq, Structural)]
pub enum Element {
    Html,
    Head,
    Title,
    Style,
    Script,
    Body,
    Article,
    Pre,
    Code,
}

impl Element {
    /// The opening tag as it is written to the document.
    pub open spec fn open_tag(self) -> Seq<char> {
        match self {
            Element::Html => "<html>"@,
            Element::Head => "<head>"@,
            Element::Title => "<title>"@,
            Element::Style => "<style>"@,
            Element::Script => "<script>"@,
            Element::Body => "<body>"@,
            Element::Article => "<article class=\"markdown-body\">"@,
            Element::Pre => "<pre>"@,
            Element::Code => "<code>"@,
        }
    }

    /// The closing tag as it is written to the document.
    pub open spec fn close_tag(self) -> Seq<char> {
        match self {
            Element::Html => "</html>"@,
            Element::Head => "</head>"@,
            Element::Title => "</title>"@,
            Element::Style => "</style>"@,
            Element::Script => "</script>"@,
            Element::Body => "</body>"@,
            Element::Article => "</article>"@,
            Element::Pre => "</pre>"@,
            Element::Code => "</code>"@,
        }
    }

    /// Whether the content of the element is kept as it is written.
    pub open spec fn is_raw_text(self) -> bool {
        self == Element::Style || self == Element::Script || self == Element::Pre || self
            == Element::Code
    }

    /// The opening tag.
    pub fn open_literal(self) -> (tag: &'static str)
        ensures
            tag@ == self.open_tag(),
    {
        match self {
            Element::Html => "<html>",
            Element::Head => "<head>",
            Element::Title => "<title>",
            Element::Style => "<style>",
            Element::Script => "<script>",
            Element::Body => "<body>",
            Element::Article => "<article class=\"markdown-body\">",
            Element::Pre => "<pre>",
            Element::Code => "<code>",
        }
    }

    /// The closing tag.
    pub fn close_literal(self) -> (tag: &'static str)
        ensures
            tag@ == self.close_tag(),
    {
        match self {
            Element::Html => "</html>",
            Element::Head => "</head>",
            Element::Title => "</title>",
            Element::Style => "</style>",
            Element::Script => "</script>",
            Element::Body => "</body>",
            Element::Article => "</article>",
            Element::Pre => "</pre>",
            Element::Code => "</code>",
        }
    }

    /// Whether the content of the element is kept as it is written.
    pub fn raw_text(self) -> (raw: bool)
        ensures
            raw == self.is_raw_text(),
    {
        match self {
            Element::Style | Element::Script | Element::Pre | Element::Code => true,
            _ => false,
        }
    }
}

/// One instruction of an emission plan.
#[derive(Clone, Debug)]
pub enum Instruction {
    /// A fixed piece of markup that opens and closes nothing.
    Token(String),
    /// The opening tag of an element.
    Open(Element),
    /// The closing tag of an element.
    Close(Element),
    /// Text that is already well-formed where it lands; inserted as it is.
    Trusted(String),
    /// Text from outside; escaped for where it lands.
    Untrusted(String),
}

/// An instruction as the contracts see it.
pub enum Step {
    Token(Seq<char>),
    Open(Element),
    Close(Element),
    Trusted(Seq<char>),
    Untrusted(Seq<char>),
}

impl View for Instruction {
    type V = Step;

    open spec fn view(&self) -> Step {
        match self {
            Instruction::Token(text) => Step::Token(text@),
            Instruction::Open(element) => Step::Open(*element),
            Instruction::Close(element) => Step::Close(*element),
            Instruction::Trusted(text) => Step::Trusted(text@),
            Instruction::Untrusted(text) => Step::Untrusted(text@),
        }
    }
}

/// A plan as the contracts see it.
pub open spec fn plan_view(plan: Seq<Instruction>) -> Seq<Step> {
    plan.map_values(|instruction: Instruction| instruction@)
}

/// The builder's state: the open elements, outermost first, and the text
/// written so far.
pub struct AssemblyState {
    pub stack: Seq<Element>,
    pub buffer: Seq<char>,
}

/// The state before the first instruction.
pub open spec fn initial_state() -> AssemblyState {
    AssemblyState { stack: Seq::<Element>::empty(), buffer: Seq::<char>::empty() }
}

/// Whether some open element keeps its content as it is written.
pub open spec fn raw_text_mode(stack: Seq<Element>) -> bool {
    exists|i: int| 0 <= i < stack.len() && stack[i].is_raw_text()
}

/// The context that untrusted text is escaped for: that of the innermost
/// open element.
pub open spec fn context_of(stack: Seq<Element>) -> Context {
    if stack.len() > 0 && stack.last() == Element::Style {
        Context::Style
    } else if stack.len() > 0 && stack.last() == Element::Script {
        Context::Script
    } else {
        Context::Text
    }
}

/// The bytes of ASCII whitespace: space, tab, line feed, form feed and
/// carriage return.
pub open spec fn is_space(byte: u8) -> bool {
    byte == 32 || byte == 9 || byte == 10 || byte == 12 || byte == 13
}

/// Bytes that are nothing but ASCII whitespace.
pub open spec fn blank(bytes: Seq<u8>) -> bool {
    forall|i: int| 0 <= i < bytes.len() ==> is_space(bytes[i])
}

/// Whether inserted text is written: always inside an element that keeps its
/// content as it is, elsewhere unless it is nothing but whitespace.
pub open spec fn kept(stack: Seq<Element>, text: Seq<char>) -> bool {
    raw_text_mode(stack) || !blank(encode_utf8(text))
}

/// What a piece of text adds to the document: `content` where the text is
/// written, nothing where it is left out.
pub open spec fn written(stack: Seq<Element>, text: Seq<char>, content: Seq<char>) -> Seq<char> {
    if kept(stack, text) {
        content
    } else {
        Seq::<char>::empty()
    }
}

/// What one instruction does to a state, or why it is refused.
pub open spec fn step(state: AssemblyState, instruction: Step) -> Result<
    AssemblyState,
    ConvertError,
> {
    match instruction {
        Step::Token(text) => Ok(AssemblyState { buffer: state.buffer + text, ..state }),
        Step::Open(element) => Ok(
            AssemblyState {
                stack: state.stack.push(element),
                buffer: state.buffer + element.open_tag(),
            },
        ),
        Step::Close(element) => if state.stack.len() > 0 && state.stack.last() == element {
            Ok(
                AssemblyState {
                    stack: state.stack.drop_last(),
                    buffer: state.buffer + element.close_tag(),
                },
            )
        } else {
            Err(ConvertError::StructuralError)
        },
        Step::Trusted(text) => Ok(
            AssemblyState { buffer: state.buffer + written(state.stack, text, text), ..state },
        ),
        Step::Untrusted(text) => Ok(
            AssemblyState {
                buffer: state.buffer + written(
                    state.stack,
                    text,
                    escaped(context_of(state.stack), text),
                ),
                ..state
            },
        ),
    }
}

/// What a plan does to a state: its instructions in order, up to the first
/// that is refused.
pub open spec fn run_plan(state: AssemblyState, plan: Seq<Step>) -> Result<
    AssemblyState,
    ConvertError,
>
    decreases plan.len(),
{
    if plan.len() == 0 {
        Ok(state)
    } else {
        match step(state, plan.first()) {
            Ok(next) => run_plan(next, plan.drop_first()),
            Err(e) => Err(e),
        }
    }
}

/// What has been written once the builder is done with, or why it cannot be.
pub open spec fn finished(state: AssemblyState) -> Result<Seq<char>, ConvertError> {
    if state.stack.len() == 0 {
        Ok(state.buffer)
    } else {
        Err(ConvertError::UnterminatedDocumentError)
    }
}

/// The document that a plan gives, or the first failure on the way.
pub open spec fn assembled(plan: Seq<Step>) -> Result<Seq<char>, ConvertError> {
    match run_plan(initial_state(), plan) {
        Ok(state) => finished(state),
        Err(e) => Err(e),
    }
}

/// The open elements after a plan ran on the given stack, whatever text the
/// plan carries; `None` where one of its closing tags is refused.
pub open spec fn stack_after(stack: Seq<Element>, plan: Seq<Step>) -> Option<Seq<Element>>
    decreases plan.len(),
{
    if plan.len() == 0 {
        Some(stack)
    } else {
        match plan.first() {
            Step::Open(element) => stack_after(stack.push(element), plan.drop_first()),
            Step::Close(element) => if stack.len() > 0 && stack.last() == element {
                stack_after(stack.drop_last(), plan.drop_first())
            } else {
                None
            },
            _ => stack_after(stack, plan.drop_first()),
        }
    }
}

/// A plan is balanced when each closing tag matches the innermost open
/// element and nothing is left open at its end.
pub open spec fn balanced(plan: Seq<Step>) -> bool {
    stack_after(Seq::<Element>::empty(), plan) == Some(Seq::<Element>::empty())
}

/// A plan after which the same elements are open as before it, whatever
/// they are.
pub open spec fn neutral(plan: Seq<Step>) -> bool {
    forall|stack: Seq<Element>| #[trigger] stack_after(stack, plan) == Some(stack)
}

/// The open elements after two plans in a row.
pub proof fn lemma_stack_after_concat(stack: Seq<Element>, first: Seq<Step>, second: Seq<Step>)
    ensures
        stack_after(stack, first + second) == match stack_after(stack, first) {
            Some(middle) => stack_after(middle, second),
            None => None,
        },
    decreases first.len(),
{
    if first.len() == 0 {
        assert(first + second =~= second);
    } else {
        assert((first + second).first() == first.first());
        assert((first + second).drop_first() =~= first.drop_first() + second);
        match first.first() {
            Step::Open(element) => lemma_stack_after_concat(
                stack.push(element),
                first.drop_first(),
                second,
            ),
            Step::Close(element) => {
                if stack.len() > 0 && stack.last() == element {
                    lemma_stack_after_concat(stack.drop_last(), first.drop_first(), second);
                }
            },
            _ => lemma_stack_after_concat(stack, first.drop_first(), second),
        }
    }
}

/// Running a plan tracks the open elements as `stack_after` does, and the
/// only failure on the way is a refused closing tag.
pub proof fn lemma_run_plan_stack(state: AssemblyState, plan: Seq<Step>)
    ensures
        match run_plan(state, plan) {
            Ok(end) => stack_after(state.stack, plan) == Some(end.stack),
            Err(e) => e == ConvertError::StructuralError && stack_after(state.stack, plan) is None,
        },
    decreases plan.len(),
{
    if plan.len() > 0 {
        match step(state, plan.first()) {
            Ok(next) => lemma_run_plan_stack(next, plan.drop_first()),
            Err(_) => {},
        }
    }
}

/// Balance: a plan is assembled exactly where it is balanced, and then no
/// element is open after its last instruction. A plan with a refused closing
/// tag fails with `StructuralError`; one that leaves elements open fails with
/// `UnterminatedDocumentError`.
pub proof fn lemma_assembled_iff_balanced(plan: Seq<Step>)
    ensures
        assembled(plan) is Ok <==> balanced(plan),
        assembled(plan) is Ok ==> (run_plan(initial_state(), plan) matches Ok(end)
            && end.stack.len() == 0),
        assembled(plan) == Err::<Seq<char>, ConvertError>(ConvertError::StructuralError)
            <==> stack_after(Seq::<Element>::empty(), plan) is None,
        assembled(plan) == Err::<Seq<char>, ConvertError>(
            ConvertError::UnterminatedDocumentError,
        ) <==> (stack_after(Seq::<Element>::empty(), plan) matches Some(open) && open.len() > 0),
{
    lemma_run_plan_stack(initial_state(), plan);
    match run_plan(initial_state(), plan) {
        Ok(end) => {
            if end.stack.len() == 0 {
                assert(end.stack =~= Seq::<Element>::empty());
            }
        },
        Err(_) => {},
    }
}

/// Running two plans one after the other is running their concatenation.
pub proof fn lemma_run_plan_concat(state: AssemblyState, first: Seq<Step>, second: Seq<Step>)
    ensures
        run_plan(state, first + second) == match run_plan(state, first) {
            Ok(middle) => run_plan(middle, second),
            Err(e) => Err(e),
        },
    decreases first.len(),
{
    if first.len() == 0 {
        assert(first + second =~= second);
    } else {
        assert((first + second).first() == first.first());
        assert((first + second).drop_first() =~= first.drop_first() + second);
        match step(state, first.first()) {
            Ok(next) => lemma_run_plan_concat(next, first.drop_first(), second),
            Err(_) => {},
        }
    }
}

/// Nothing that was written is ever taken back: the text before a plan runs
/// is the beginning of the text after it.
pub proof fn lemma_run_plan_extends(state: AssemblyState, plan: Seq<Step>)
    ensures
        run_plan(state, plan) matches Ok(end) ==> state.buffer.is_prefix_of(end.buffer),
    decreases plan.len(),
{
    if plan.len() > 0 {
        match step(state, plan.first()) {
            Ok(next) => {
                lemma_run_plan_extends(next, plan.drop_first());
                assert(state.buffer.is_prefix_of(next.buffer));
                if run_plan(next, plan.drop_first()) is Ok {
                    let end = run_plan(next, plan.drop_first())->Ok_0;
                    assert(state.buffer =~= end.buffer.subrange(0, state.buffer.len() as int));
                }
            },
            Err(_) => {},
        }
    }
}

/// Inside `script`, `style`, `pre` and `code`, trusted text reaches the
/// document byte for byte, whatever whitespace it holds: where a plan is
/// assembled, the text of a trusted instruction that lands in such an element
/// stands in the result unchanged, at the place where the instructions before
/// it stopped writing.
pub proof fn lemma_raw_text_is_kept(before: Seq<Step>, text: Seq<char>, after: Seq<Step>)
    requires
        run_plan(initial_state(), before) is Ok,
        raw_text_mode(run_plan(initial_state(), before)->Ok_0.stack),
        assembled(before + seq![Step::Trusted(text)] + after) is Ok,
    ensures
        ({
            let document = assembled(before + seq![Step::Trusted(text)] + after)->Ok_0;
            let at = run_plan(initial_state(), before)->Ok_0.buffer.len() as int;
            &&& at + text.len() <= document.len()
            &&& document.subrange(at, at + text.len()) == text
        }),
{
    let one = seq![Step::Trusted(text)];
    lemma_run_plan_concat(initial_state(), before + one, after);
    lemma_run_plan_concat(initial_state(), before, one);
    let middle = run_plan(initial_state(), before)->Ok_0;
    assert(one.drop_first() =~= Seq::<Step>::empty());
    let wrote = AssemblyState { buffer: middle.buffer + text, ..middle };
    assert(run_plan(middle, one) == Ok::<AssemblyState, ConvertError>(wrote)) by {
        assert(one.first() == Step::Trusted(text));
        assert(run_plan(wrote, one.drop_first()) == Ok::<AssemblyState, ConvertError>(wrote));
    }
    lemma_run_plan_extends(wrote, after);
    let end = run_plan(wrote, after)->Ok_0;
    let at = middle.buffer.len() as int;
    assert(wrote.buffer.is_prefix_of(end.buffer));
    assert(wrote.buffer.len() == at + text.len());
    assert(end.buffer.subrange(at, at + text.len()) =~= text) by {
        assert forall|k: int| 0 <= k < text.len() implies end.buffer[at + k] == text[k] by {
            assert(end.buffer[at + k] == wrote.buffer[at + k]);
        }
    }
}

/// An instruction that inserts text.
pub open spec fn carries(instruction: Step, text: Seq<char>) -> bool {
    instruction == Step::Trusted(text) || instruction == Step::Untrusted(text)
}

/// Outside `script`, `style`, `pre` and `code`, text that is nothing but
/// whitespace leaves no trace: a plan with such an instruction gives what the
/// plan without it gives, be it a document or a failure.
pub proof fn lemma_blank_text_is_dropped(
    before: Seq<Step>,
    instruction: Step,
    text: Seq<char>,
    after: Seq<Step>,
)
    requires
        carries(instruction, text),
        blank(encode_utf8(text)),
        run_plan(initial_state(), before) is Ok,
        !raw_text_mode(run_plan(initial_state(), before)->Ok_0.stack),
    ensures
        assembled(before + seq![instruction] + after) == assembled(before + after),
{
    let one = seq![instruction];
    lemma_run_plan_concat(initial_state(), before + one, after);
    lemma_run_plan_concat(initial_state(), before, one);
    lemma_run_plan_concat(initial_state(), before, after);
    let middle = run_plan(initial_state(), before)->Ok_0;
    assert(one.drop_first() =~= Seq::<Step>::empty());
    assert(middle.buffer + Seq::<char>::empty() =~= middle.buffer);
    assert(run_plan(middle, one) == Ok::<AssemblyState, ConvertError>(middle)) by {
        assert(one.first() == instruction);
        assert(step(middle, instruction) == Ok::<AssemblyState, ConvertError>(middle));
        assert(run_plan(middle, one.drop_first()) == Ok::<AssemblyState, ConvertError>(middle));
    }
}

/// Outside `script`, `style`, `pre` and `code`, one run of whitespace is as
/// good as another: two plans that differ only in the whitespace that one
/// instruction carries give the same.
pub proof fn lemma_whitespace_does_not_matter(
    before: Seq<Step>,
    one: Seq<char>,
    other: Seq<char>,
    after: Seq<Step>,
)
    requires
        blank(encode_utf8(one)),
        blank(encode_utf8(other)),
        run_plan(initial_state(), before) is Ok,
        !raw_text_mode(run_plan(initial_state(), before)->Ok_0.stack),
    ensures
        assembled(before + seq![Step::Trusted(one)] + after) == assembled(
            before + seq![Step::Trusted(other)] + after,
        ),
{
    lemma_blank_text_is_dropped(before, Step::Trusted(one), one, after);
    lemma_blank_text_is_dropped(before, Step::Trusted(other), other, after);
}

/// Tells whether a text is nothing but ASCII whitespace.
pub fn is_blank(text: &str) -> (all: bool)
    ensures
        all == blank(text.spec_bytes()),
{
    let bytes = text.as_bytes();
    let mut i: usize = 0;
    while i < bytes.len()
        invariant
            i <= bytes@.len(),
            bytes@ == text.spec_bytes(),
            forall|j: int| 0 <= j < i ==> is_space(bytes@[j]),
        decreases bytes@.len() - i,
    {
        let byte = bytes[i];
        if !(byte == 32 || byte == 9 || byte == 10 || byte == 12 || byte == 13) {
            assert(!is_space(text.spec_bytes()[i as int]));
            return false;
        }
        i += 1;
    }
    true
}

/// The builder.
pub struct Assembler {
    stack: Vec<Element>,
    buffer: String,
}

impl View for Assembler {
    type V = AssemblyState;

    closed spec fn view(&self) -> AssemblyState {
        AssemblyState { stack: self.stack@, buffer: self.buffer@ }
    }
}

impl Assembler {
    /// A builder with nothing open and nothing written.
    pub fn new() -> (assembler: Assembler)
        ensures
            assembler@ == initial_state(),
    {
        Assembler { stack: Vec::new(), buffer: String::new() }
    }

    /// The number of open elements.
    pub fn depth(&self) -> (depth: usize)
        ensures
            depth == self@.stack.len(),
    {
        self.stack.len()
    }

    /// Whether what is inserted now lands inside `script`, `style`, `pre` or
    /// `code`.
    pub fn in_raw_text(&self) -> (raw: bool)
        ensures
            raw == raw_text_mode(self@.stack),
    {
        let mut i: usize = 0;
        while i < self.stack.len()
            invariant
                i <= self.stack@.len(),
                forall|j: int| 0 <= j < i ==> !self.stack@[j].is_raw_text(),
            decreases self.stack@.len() - i,
        {
            if self.stack[i].raw_text() {
                return true;
            }
            i += 1;
        }
        false
    }

    /// The context that untrusted text would be escaped for now.
    pub fn context(&self) -> (context: Context)
        ensures
            context == context_of(self@.stack),
    {
        let depth = self.stack.len();
        if depth == 0 {
            Context::Text
        } else {
            match self.stack[depth - 1] {
                Element::Style => Context::Style,
                Element::Script => Context::Script,
                _ => Context::Text,
            }
        }
    }

    /// Whether a piece of text would be written now.
    pub fn keeps(&self, text: &str) -> (keep: bool)
        ensures
            keep == kept(self@.stack, text@),
    {
        self.in_raw_text() || !is_blank(text)
    }

    /// Writes a fixed piece of markup that opens and closes nothing.
    pub fn token(&mut self, text: &str)
        ensures
            Ok::<AssemblyState, ConvertError>(final(self)@) == step(old(self)@, Step::Token(text@)),
    {
        self.buffer.append(text);
    }

    /// Opens an element: writes its opening tag and puts it on the stack.
    pub fn open(&mut self, element: Element)
        ensures
            Ok::<AssemblyState, ConvertError>(final(self)@) == step(
                old(self)@,
                Step::Open(element),
            ),
    {
        self.stack.push(element);
        self.buffer.append(element.open_literal());
    }

    /// Closes an element. Where it is the innermost open one, its closing tag
    /// is written and it leaves the stack; else the call fails with
    /// `StructuralError` and changes nothing.
    pub fn close(&mut self, element: Element) -> (result: Result<(), ConvertError>)
        ensures
            match step(old(self)@, Step::Close(element)) {
                Ok(next) => result is Ok && final(self)@ == next,
                Err(e) => result == Err::<(), ConvertError>(e) && final(self)@ == old(self)@,
            },
    {
        let depth = self.stack.len();
        if depth == 0 || self.stack[depth - 1] != element {
            return Err(ConvertError::StructuralError);
        }
        self.stack.pop();
        self.buffer.append(element.close_literal());
        Ok(())
    }

    /// Inserts text that is already well-formed where it lands, unchanged.
    /// Outside `script`, `style`, `pre` and `code`, nothing but whitespace is
    /// left out.
    pub fn insert_trusted(&mut self, text: &str)
        ensures
            Ok::<AssemblyState, ConvertError>(final(self)@) == step(
                old(self)@,
                Step::Trusted(text@),
            ),
    {
        if self.keeps(text) {
            self.buffer.append(text);
        } else {
            assert(self.buffer@ + Seq::<char>::empty() =~= self.buffer@);
        }
    }

    /// Inserts text from outside, escaped for the innermost open element.
    /// Outside `script`, `style`, `pre` and `code`, nothing but whitespace is
    /// left out.
    pub fn insert_untrusted(&mut self, text: &str)
        ensures
            Ok::<AssemblyState, ConvertError>(final(self)@) == step(
                old(self)@,
                Step::Untrusted(text@),
            ),
    {
        if self.keeps(text) {
            let safe = escape(self.context(), text);
            self.buffer.append(safe.as_str());
        } else {
            assert(self.buffer@ + Seq::<char>::empty() =~= self.buffer@);
        }
    }

    /// Carries out one instruction. A refused instruction changes nothing.
    pub fn execute(&mut self, instruction: &Instruction) -> (result: Result<(), ConvertError>)
        ensures
            match step(old(self)@, instruction@) {
                Ok(next) => result is Ok && final(self)@ == next,
                Err(e) => result == Err::<(), ConvertError>(e) && final(self)@ == old(self)@,
            },
    {
        match instruction {
            Instruction::Token(text) => {
                self.token(text.as_str());
                Ok(())
            },
            Instruction::Open(element) => {
                self.open(*element);
                Ok(())
            },
            Instruction::Close(element) => self.close(*element),
            Instruction::Trusted(text) => {
                self.insert_trusted(text.as_str());
                Ok(())
            },
            Instruction::Untrusted(text) => {
                self.insert_untrusted(text.as_str());
                Ok(())
            },
        }
    }

    /// Ends the document. Where no element is open, the text written comes
    /// back; else the call fails with `UnterminatedDocumentError`.
    pub fn finish(self) -> (result: Result<String, ConvertError>)
        ensures
            match finished(self@) {
                Ok(text) => result matches Ok(s) && s@ == text,
                Err(e) => result == Err::<String, ConvertError>(e),
            },
    {
        if self.stack.len() != 0 {
            return Err(ConvertError::UnterminatedDocumentError);
        }
        Ok(self.buffer)
    }
}

/// Builds the document of a plan. It succeeds exactly where every closing tag
/// matches the innermost open element and nothing is left open at the end;
/// the text is then what the instructions wrote, in order.
pub fn assemble(plan: &Vec<Instruction>) -> (result: Result<String, ConvertError>)
    ensures
        match assembled(plan_view(plan@)) {
            Ok(text) => result matches Ok(s) && s@ == text,
            Err(e) => result == Err::<String, ConvertError>(e),
        },
{
    let ghost steps = plan_view(plan@);
    let mut assembler = Assembler::new();
    let mut i: usize = 0;
    proof {
        assert(steps.skip(0) =~= steps);
    }
    while i < plan.len()
        invariant
            i <= plan@.len(),
            steps == plan_view(plan@),
            run_plan(initial_state(), steps) == run_plan(assembler@, steps.skip(i as int)),
        decreases plan@.len() - i,
    {
        proof {
            assert(steps.skip(i as int).first() == plan@[i as int]@);
            assert(steps.skip(i as int).drop_first() =~= steps.skip(i + 1));
        }
        match assembler.execute(&plan[i]) {
            Ok(()) => {},
            Err(e) => {
                return Err(e);
            },
        }
        i += 1;
    }
    proof {
        assert(steps.skip(i as int).len() == 0);
    }
    assembler.finish()
}

} // verus!
