//! What holds of every frame and every instruction.

use crate::bytecode::{CallType, ComparisonOperator, Instruction, Label, Location};
use crate::continuation::{After, ContinuationView, ExecutionResult, LoopJump, StepView};
use crate::frame::{BlockType, FrameView};
use crate::model;
use crate::model::Halt;
use crate::object::PyObjectRef;
use crate::request::{Method, Query, ReplyView, RequestView, Service};
use crate::run;
use crate::run::{ActivityView, Handling, SuspendedView, TurnView, UnwoundView};
use crate::unwind::{lemma_innermost, lemma_pop_blocks_to, lemma_pop_blocks_twice};
use vstd::prelude::*;

verus! {

// What stays unchanged.

/// The two frames run the same code in the same scope.
pub open spec fn same_setting(f: FrameView, g: FrameView) -> bool {
    g.code == f.code && g.locals == f.locals
}

/// Starting an instruction changes neither the code nor the scope of the frame.
pub proof fn execute_keeps_setting(f: FrameView, instruction: Instruction, directory: String)
    requires
        model::can_execute(f, instruction),
    ensures
        same_setting(f, model::execute(f, instruction, directory).0),
{
    lemma_innermost(f.blocks, Halt::Jump);
    lemma_unwinding_keeps_setting(f);
    lemma_unwinding_keeps_setting(f.drop(1));
}

proof fn lemma_unwinding_keeps_setting(f: FrameView)
    ensures
        forall|count: int| same_setting(f, #[trigger] f.pop_blocks_to(count)),
    decreases f.blocks.len(),
{
    if f.blocks.len() > 0 {
        lemma_unwinding_keeps_setting(f.pop_block());
    }
    assert forall|count: int| same_setting(f, #[trigger] f.pop_blocks_to(count)) by {
        if f.blocks.len() > 0 && f.blocks.len() > count {
            assert(f.pop_blocks_to(count) == f.pop_block().pop_blocks_to(count));
        }
    }
}

/// Going on with a reply changes neither the code nor the scope of the frame.
pub proof fn resume_keeps_setting(f: FrameView, continuation: ContinuationView, reply: ReplyView)
    requires
        model::can_resume(f, continuation, reply),
    ensures
        same_setting(f, model::resume(f, continuation, reply).0),
{
    lemma_unwinding_keeps_setting(f);
    lemma_unwinding_keeps_setting(f.pop_block());
}

/// Dealing with an exception changes neither the code nor the scope of the frame.
pub proof fn handle_keeps_setting(
    f: FrameView,
    lineno: Location,
    handling: Handling,
    reply: ReplyView,
)
    requires
        run::can_handle(f, handling, reply),
    ensures
        same_setting(f, run::handle(f, lineno, handling, reply).0),
{
    lemma_unwinding_keeps_setting(f);
}

/// A run changes neither the code nor the scope of the frame.
pub proof fn run_keeps_setting(f: FrameView, budget: nat, directory: String)
    ensures
        same_setting(f, run::run(f, budget, directory).0),
    decreases budget,
{
    if budget > 0 && run::can_run(f) {
        execute_keeps_setting(f.fetched(), f.code.instructions@[f.lasti], directory);
        run_keeps_setting(model::start(f, directory).0, (budget - 1) as nat, directory);
    }
}

/// A run that goes on with a reply changes neither the code nor the scope of the frame.
pub proof fn resumed_run_keeps_setting(
    f: FrameView,
    suspended: SuspendedView,
    reply: ReplyView,
    budget: nat,
    directory: String,
)
    ensures
        same_setting(f, run::resume(f, suspended, reply, budget, directory).0),
{
    match suspended.activity {
        ActivityView::Executing(continuation) => {
            if model::can_resume(f, continuation, reply) {
                resume_keeps_setting(f, continuation, reply);
                run_keeps_setting(model::resume(f, continuation, reply).0, budget, directory);
            }
        },
        ActivityView::Handling(handling) => {
            if run::can_handle(f, handling, reply) {
                handle_keeps_setting(f, suspended.lineno, handling, reply);
                run_keeps_setting(
                    run::handle(f, suspended.lineno, handling, reply).0,
                    budget,
                    directory,
                );
            }
        },
    }
}

/// Where a module is looked for matters to imports alone: whatever else an instruction starts with
/// is the same for every directory. An import asks from the directory that it is given.
pub proof fn directory_is_for_imports(
    f: FrameView,
    instruction: Instruction,
    directory: String,
    other: String,
)
    ensures
        ({
            let o = model::execute(f, instruction, directory);
            &&& o.1.imports_from() is None ==> model::execute(f, instruction, other) == o
            &&& o.1.imports_from() is Some ==> o.1.imports_from() == Some(directory)
            &&& o.1.imports_from() is Some <==> instruction is Import || instruction is ImportStar
        }),
{
}

/// A run that asks for no module is the same for every directory, and one that asks for a module
/// asks from the directory that it is given.
pub proof fn run_directory_is_for_imports(
    f: FrameView,
    budget: nat,
    directory: String,
    other: String,
)
    ensures
        ({
            let o = run::run(f, budget, directory);
            &&& o.1.imports_from() is None ==> run::run(f, budget, other) == o
            &&& o.1.imports_from() is Some ==> o.1.imports_from() == Some(directory)
        }),
    decreases budget,
{
    if budget > 0 && run::can_run(f) {
        let instruction = f.code.instructions@[f.lasti];
        directory_is_for_imports(f.fetched(), instruction, directory, other);
        run_directory_is_for_imports(
            model::start(f, directory).0,
            (budget - 1) as nat,
            directory,
            other,
        );
    }
}

/// Nothing is imported on the way: an instruction that goes on with a reply asks for no module.
pub proof fn resume_asks_no_import(f: FrameView, continuation: ContinuationView, reply: ReplyView)
    requires
        model::can_resume(f, continuation, reply),
    ensures
        model::resume(f, continuation, reply).1.imports_from() is None,
{
}

/// Dealing with an exception asks for no module.
pub proof fn handle_asks_no_import(
    f: FrameView,
    lineno: Location,
    handling: Handling,
    reply: ReplyView,
)
    requires
        run::can_handle(f, handling, reply),
    ensures
        run::handle(f, lineno, handling, reply).1 matches UnwoundView::Ask { request, .. }
            ==> request.imports_from() is None,
{
}

/// An import looks from the directory that it is given and pushes what it gets; if it fails, that
/// is raised. Nothing else in the frame changes.
pub proof fn import_pushes_module(
    f: FrameView,
    module: String,
    symbol: Option<String>,
    directory: String,
    obj: PyObjectRef,
    exc: PyObjectRef,
)
    ensures
        ({
            let (g, step) = model::execute(
                f,
                Instruction::Import { name: module, symbol },
                directory,
            );
            &&& g == f
            &&& step == model::service_step(
                (Service::Import { path: directory, module, symbol }),
                After::Push,
            )
            &&& model::resume(g, step->resume, ReplyView::Value(obj)) == model::go_on(f.push(obj))
            &&& model::resume(g, step->resume, ReplyView::Failed(exc)) == model::raise(f, exc)
        }),
{
}

// What is asked for and what is waited for.

/// Whether, if a step asks for something and `reply` answers it, `reply` is of the kind that the
/// step waits for.
pub open spec fn fits(step: StepView, reply: ReplyView) -> bool {
    step matches StepView::Ask { request, resume } ==> (request.answered_by(reply)
        ==> resume.takes(reply))
}

/// Whatever answers a request that an instruction starts with is of the kind that the
/// instruction waits for.
#[verifier::rlimit(40)]
pub proof fn execute_takes_answers(
    f: FrameView,
    instruction: Instruction,
    directory: String,
    reply: ReplyView,
)
    ensures
        fits(model::execute(f, instruction, directory).1, reply),
{
    match instruction {
        Instruction::BinaryOperation { op, inplace } => {
            assert(fits(model::binop(f, op, inplace).1, reply));
        },
        Instruction::CompareOperation { op } => {
            assert(fits(model::compare(f, op).1, reply));
        },
        Instruction::UnaryOperation { op } => {
            assert(fits(model::unop(f, op).1, reply));
        },
        Instruction::CallFunction { typ } => {
            assert(fits(model::call_function(f, typ).1, reply));
        },
        _ => {
            assert(fits(model::execute(f, instruction, directory).1, reply));
        },
    }
}

/// Whatever answers a request that an instruction goes on with is of the kind that the
/// instruction waits for.
pub proof fn resume_takes_answers(
    f: FrameView,
    continuation: ContinuationView,
    first: ReplyView,
    reply: ReplyView,
)
    requires
        model::can_resume(f, continuation, first),
    ensures
        fits(model::resume(f, continuation, first).1, reply),
{
}

/// Whatever answers a request that dealing with an exception makes is of the kind that is waited
/// for.
pub proof fn handle_takes_answers(
    f: FrameView,
    lineno: Location,
    handling: Handling,
    first: ReplyView,
    reply: ReplyView,
)
    requires
        run::can_handle(f, handling, first),
    ensures
        run::handle(f, lineno, handling, first).1 matches UnwoundView::Ask { request, handling }
            ==> (request.answered_by(reply) ==> handling.takes(reply)),
{
}

impl ActivityView {
    /// Whether `reply` is of the kind that is waited for.
    pub open spec fn takes(self, reply: ReplyView) -> bool {
        match self {
            ActivityView::Executing(continuation) => continuation.takes(reply),
            ActivityView::Handling(handling) => handling.takes(reply),
        }
    }
}

/// Whatever answers a request that a run makes is of the kind that the run waits for.
pub proof fn run_takes_answers(f: FrameView, budget: nat, reply: ReplyView, directory: String)
    ensures
        run::run(f, budget, directory).1 matches TurnView::Ask { request, suspended } ==> (
        request.answered_by(reply) ==> suspended.activity.takes(reply)),
    decreases budget,
{
    if budget > 0 && run::can_run(f) {
        execute_takes_answers(f.fetched(), f.code.instructions@[f.lasti], directory, reply);
        run_takes_answers(model::start(f, directory).0, (budget - 1) as nat, reply, directory);
    }
}

/// Whatever answers a request that a run makes after a reply is of the kind that the run waits
/// for.
pub proof fn resumed_run_takes_answers(
    f: FrameView,
    suspended: SuspendedView,
    first: ReplyView,
    budget: nat,
    reply: ReplyView,
    directory: String,
)
    ensures
        run::resume(f, suspended, first, budget, directory).1 matches TurnView::Ask {
            request,
            suspended,
        } ==> (request.answered_by(reply) ==> suspended.activity.takes(reply)),
{
    match suspended.activity {
        ActivityView::Executing(continuation) => {
            if model::can_resume(f, continuation, first) {
                resume_takes_answers(f, continuation, first, reply);
                run_takes_answers(
                    model::resume(f, continuation, first).0,
                    budget,
                    reply,
                    directory,
                );
            }
        },
        ActivityView::Handling(handling) => {
            if run::can_handle(f, handling, first) {
                handle_takes_answers(f, suspended.lineno, handling, first, reply);
                run_takes_answers(
                    run::handle(f, suspended.lineno, handling, first).0,
                    budget,
                    reply,
                    directory,
                );
            }
        },
    }
}

// The value stack.

/// What is pushed is what is popped, and the frame is as before.
pub proof fn pop_undoes_push(f: FrameView, value: PyObjectRef)
    ensures
        f.push(value).top() == value,
        f.push(value).drop(1) == f,
{
    assert(f.stack.push(value).take(f.stack.len() as int) == f.stack);
}

/// The frame after values were pushed one after the other.
pub open spec fn push_all(f: FrameView, values: Seq<PyObjectRef>) -> FrameView
    decreases values.len(),
{
    if values.len() == 0 {
        f
    } else {
        push_all(f, values.drop_last()).push(values.last())
    }
}

proof fn lemma_push_all(f: FrameView, values: Seq<PyObjectRef>)
    ensures
        push_all(f, values).stack == f.stack + values,
        push_all(f, values) == (FrameView { stack: f.stack + values, ..f }),
    decreases values.len(),
{
    if values.len() > 0 {
        lemma_push_all(f, values.drop_last());
        assert((f.stack + values.drop_last()).push(values.last()) == f.stack + values);
    } else {
        assert(f.stack + values == f.stack);
    }
}

/// Values that are pushed one after the other are popped together in the order in which they
/// were pushed, and the frame is as before.
pub proof fn pop_multiple_undoes_pushes(f: FrameView, values: Seq<PyObjectRef>)
    ensures
        push_all(f, values).top_values(values.len() as int) == values,
        push_all(f, values).drop(values.len() as int) == f,
{
    lemma_push_all(f, values);
    assert((f.stack + values).skip(f.stack.len() as int) == values);
    assert((f.stack + values).take(f.stack.len() as int) == f.stack);
}

/// Unpacked elements lie on the stack with the first of them topmost.
pub proof fn unpacked_elements_lie_in_order(f: FrameView, elements: Seq<PyObjectRef>)
    ensures
        model::resume_after(f, After::Unpack, ReplyView::Elements(elements)) == model::go_on(
            f.push_reversed(elements),
        ),
        forall|i: int|
            0 <= i < elements.len() ==> #[trigger] f.push_reversed(elements).nth(i) == elements[i],
        f.push_reversed(elements).drop(elements.len() as int) == f,
{
    assert((f.stack + elements.reverse()).take(f.stack.len() as int) == f.stack);
}

/// With a starred target, the elements before it, the list for it and the elements behind it lie
/// on the stack in order, the first element topmost.
pub proof fn starred_elements_lie_in_order(
    f: FrameView,
    before: usize,
    after: usize,
    elements: Seq<PyObjectRef>,
    list: PyObjectRef,
)
    requires
        before + after <= elements.len(),
    ensures
        ({
            let n = elements.len();
            let (g, step) = model::unpack_ex(f, before as int, after as int, elements);
            &&& step matches StepView::Ask { request, resume }
            &&& request == RequestView::NewList {
                elements: elements.subrange(before as int, n - after),
            }
            &&& resume.takes(ReplyView::Value(list))
            &&& ({
                let (h, last) = model::resume(g, resume, ReplyView::Value(list));
                &&& last == model::go_on(h).1
                &&& h.stack.len() == f.stack.len() + before + 1 + after
                &&& forall|i: int| 0 <= i < before ==> #[trigger] h.nth(i) == elements[i]
                &&& h.nth(before as int) == list
                &&& forall|i: int|
                    before < i <= before + after ==> #[trigger] h.nth(i) == elements[n - after + i
                        - before - 1]
                &&& h.drop(before + 1 + after) == f
            })
        }),
{
    let n = elements.len();
    let (g, step) = model::unpack_ex(f, before as int, after as int, elements);
    let first = elements.take(before as int);
    let last = elements.skip(n - after);
    let h = g.push(list).push_reversed(first);
    assert(h.stack == (f.stack + last.reverse()).push(list) + first.reverse());
    assert(h.stack.take(f.stack.len() as int) == f.stack);
}

/// Rotating puts the topmost value below the others that are rotated, which keep their order, and
/// loses none.
pub proof fn rotate_keeps_values(f: FrameView, amount: int)
    requires
        2 <= amount <= f.stack.len(),
    ensures
        model::rotate(f, amount).nth(amount - 1) == f.top(),
        forall|i: int| 0 <= i < amount - 1 ==> #[trigger] model::rotate(f, amount).nth(i) == f.nth(
            i + 1,
        ),
        model::rotate(f, amount).drop(amount) == f.drop(amount),
        model::rotate(f, amount).stack.to_multiset() == f.stack.to_multiset(),
{
    let n = f.stack.len();
    let rest = f.stack.drop_last();
    assert(model::rotate(f, amount).stack.take(n - amount) == f.stack.take(n - amount));
    assert(rest.insert(n - amount, f.stack.last()).to_multiset() == rest.to_multiset().insert(
        f.stack.last(),
    )) by {
        vstd::seq_lib::to_multiset_insert(rest, n - amount, f.stack.last());
    }
    assert(f.stack == rest.push(f.stack.last()));
    assert(rest.push(f.stack.last()) == rest.insert(rest.len() as int, f.stack.last()));
    vstd::seq_lib::to_multiset_insert(rest, rest.len() as int, f.stack.last());
}

/// How many of the topmost values an instruction may take or move when it starts. What leaves
/// blocks may take more: see `leaving_blocks_cuts_stack`.
pub open spec fn reach(instruction: Instruction) -> int {
    match instruction {
        Instruction::Import { .. }
        | Instruction::ImportStar { .. }
        | Instruction::LoadName { .. }
        | Instruction::LoadConst { .. }
        | Instruction::DeleteName { .. }
        | Instruction::SetupLoop { .. }
        | Instruction::SetupExcept { .. }
        | Instruction::Pass
        | Instruction::Jump { .. }
        | Instruction::ForIter { .. }
        | Instruction::Duplicate
        | Instruction::LoadBuildClass
        | Instruction::Break
        | Instruction::Continue
        | Instruction::PopBlock
        | Instruction::CleanupWith { .. } => 0,
        Instruction::StoreSubscript => 3,
        Instruction::DeleteSubscript
        | Instruction::StoreAttr { .. }
        | Instruction::CompareOperation { .. }
        | Instruction::BinaryOperation { .. }
        | Instruction::MapAdd { .. } => 2,
        Instruction::Rotate { amount } => amount as int,
        Instruction::BuildString { size } => size as int,
        Instruction::BuildTuple { size, .. } => size as int,
        Instruction::BuildList { size, .. } => size as int,
        Instruction::BuildSet { size, .. } => size as int,
        Instruction::BuildMap { size, unpack } => if unpack {
            size as int
        } else {
            2 * size
        },
        Instruction::BuildSlice { size } => size as int,
        Instruction::MakeFunction { flags } => if flags.has_defaults {
            3
        } else {
            2
        },
        Instruction::CallFunction { typ: CallType::Positional(count) } => count + 1,
        Instruction::CallFunction { typ: CallType::Keyword(count) } => count + 1,
        _ => 1,
    }
}

/// Whether an instruction leaves blocks when it starts.
pub open spec fn leaves_blocks(instruction: Instruction) -> bool {
    match instruction {
        Instruction::ReturnValue
        | Instruction::Break
        | Instruction::Continue
        | Instruction::PopBlock
        | Instruction::CleanupWith { .. } => true,
        _ => false,
    }
}

/// An instruction leaves alone what lies on the stack below the values within its reach.
pub proof fn execute_keeps_lower_values(f: FrameView, instruction: Instruction, directory: String)
    requires
        model::can_execute(f, instruction),
        !leaves_blocks(instruction),
    ensures
        0 <= reach(instruction) <= f.stack.len(),
        f.drop(reach(instruction)).stack.is_prefix_of(
            model::execute(f, instruction, directory).0.stack,
        ),
{
}

/// What an instruction that leaves blocks does to the stack is to take values off its top.
pub proof fn leaving_blocks_cuts_stack(f: FrameView, instruction: Instruction, directory: String)
    requires
        model::can_execute(f, instruction),
        leaves_blocks(instruction),
    ensures
        model::execute(f, instruction, directory).0.stack.is_prefix_of(f.stack),
        model::execute(f, instruction, directory).0.blocks.is_prefix_of(f.blocks),
{
    lemma_innermost(f.blocks, Halt::Jump);
    lemma_innermost(f.blocks, Halt::Return);
    let i = model::innermost(f.blocks, Halt::Jump);
    let j = model::innermost(f.blocks, Halt::Return);
    if i >= 0 {
        lemma_pop_blocks_to(f, i + 1);
    }
    lemma_pop_blocks_to(
        f.drop(1),
        if j < 0 {
            0
        } else {
            j
        },
    );
}

// Where execution goes on.

/// Whether an instruction may jump when it starts.
pub open spec fn jumps(instruction: Instruction) -> bool {
    match instruction {
        Instruction::Jump { .. } | Instruction::Break | Instruction::Continue => true,
        _ => false,
    }
}

/// Unless it is a jump, an instruction starts by going on to the one behind it.
pub proof fn instructions_follow_one_another(f: FrameView, directory: String)
    requires
        model::can_start(f),
        !jumps(f.code.instructions@[f.lasti]),
    ensures
        model::start(f, directory).0.lasti == f.lasti + 1,
{
    let g = f.fetched().drop(1);
    lemma_innermost(g.blocks, Halt::Return);
    let j = model::innermost(g.blocks, Halt::Return);
    lemma_pop_blocks_to(
        g,
        if j < 0 {
            0
        } else {
            j
        },
    );
}

/// A jump goes to where the code says that the label lies.
pub proof fn jump_goes_to_label(f: FrameView, target: Label, directory: String)
    requires
        f.has_label(target),
    ensures
        model::execute(f, Instruction::Jump { target }, directory) == model::go_on(f.jump(target)),
        f.jump(target).lasti == f.code.label_map@[target],
        f.jump(target).stack == f.stack,
        f.jump(target).blocks == f.blocks,
{
}

/// A conditional jump takes the condition off the stack, and goes to its target exactly when the
/// condition is as it says.
pub proof fn conditional_jump_decides(
    f: FrameView,
    target: Label,
    when: bool,
    truth: bool,
    directory: String,
)
    requires
        f.stack.len() >= 1,
        f.has_label(target),
    ensures
        ({
            let instruction = if when {
                Instruction::JumpIf { target }
            } else {
                Instruction::JumpIfFalse { target }
            };
            let (g, step) = model::execute(f, instruction, directory);
            &&& step == model::service_step(
                Service::BoolVal { obj: f.top() },
                After::JumpWhen { target, when },
            )
            &&& model::resume(
                g,
                ContinuationView::After(After::JumpWhen { target, when }),
                ReplyView::Truth(truth),
            ) == model::go_on(
                if truth == when {
                    f.drop(1).jump(target)
                } else {
                    f.drop(1)
                },
            )
        }),
{
}

/// While the iterator on top of the stack gives objects, a loop over it pushes them; when it
/// gives none, the iterator is dropped and the loop is left.
pub proof fn loop_over_iterator(
    f: FrameView,
    target: Label,
    next: Option<PyObjectRef>,
    directory: String,
)
    requires
        f.stack.len() >= 1,
        f.has_label(target),
    ensures
        model::execute(f, Instruction::ForIter { target }, directory) == model::ask_service(
            f,
            Service::NextObject { iterator: f.top() },
            After::Advance { target },
        ),
        model::resume(
            f,
            ContinuationView::After(After::Advance { target }),
            ReplyView::Next(next),
        ) == (match next {
            Some(value) => model::go_on(f.push(value)),
            None => model::go_on(f.drop(1).jump(target)),
        }),
{
}

/// A generator that yields from an iterator runs the same instruction again when it goes on, and
/// finds the stack as it was but for the value that was sent to it.
pub proof fn yield_from_runs_again(
    f: FrameView,
    value: PyObjectRef,
    sent: PyObjectRef,
    directory: String,
)
    requires
        model::can_start(f),
        f.code.instructions@[f.lasti] is YieldFrom,
    ensures
        ({
            let (g, step) = model::start(f, directory);
            let (h, last) = model::resume(
                g,
                ContinuationView::After(After::Delegate),
                ReplyView::Next(Some(value)),
            );
            &&& step == model::service_step(
                Service::NextObject { iterator: f.nth(1) },
                After::Delegate,
            )
            &&& last == StepView::Finished(Ok(Some(ExecutionResult::Yield(value))))
            &&& h == f.drop(1)
            &&& model::can_start(h.push(sent))
            &&& model::start(h.push(sent), directory) == model::start(f, directory)
        }),
{
    let h = f.drop(1);
    assert(h.stack.push(sent).take(h.stack.len() as int) == h.stack);
    assert(h.push(sent).fetched().drop(1) == f.fetched().drop(1));
}

// Blocks.

/// Leaving a block puts the stack back to where it was when the block was entered.
pub proof fn pop_block_undoes_push_block(f: FrameView, typ: BlockType, values: Seq<PyObjectRef>)
    requires
        f.stack.len() <= usize::MAX,
    ensures
        push_all(f.push_block(typ), values).pop_block() == f,
{
    let g = f.push_block(typ);
    lemma_push_all(g, values);
    assert((f.stack + values).take(f.stack.len() as int) == f.stack);
    assert(f.blocks.push(g.blocks.last()).drop_last() == f.blocks);
}

/// A `with` statement calls the context manager when it is entered and pushes what that gives.
/// When it is cleaned up, the manager is told that there was no exception, and the stack is as it
/// was below the manager.
pub proof fn with_statement_is_cleaned_up(
    f: FrameView,
    end: Label,
    value: PyObjectRef,
    values: Seq<PyObjectRef>,
    directory: String,
)
    requires
        1 <= f.stack.len() <= usize::MAX,
    ensures
        ({
            let manager = f.top();
            let after = After::Enter { end, context_manager: manager };
            let (g, last) = model::resume(
                f.drop(1),
                ContinuationView::After(after),
                ReplyView::Value(value),
            );
            let h = push_all(g, values);
            &&& model::execute(f, Instruction::SetupWith { end }, directory) == model::ask_method(
                f.drop(1),
                manager,
                Method::Enter,
                seq![],
                after,
            )
            &&& last == model::go_on(g).1
            &&& g.top() == value
            &&& model::can_execute(h, Instruction::CleanupWith { end })
            &&& model::execute(h, Instruction::CleanupWith { end }, directory) == model::ask(
                f.drop(1),
                model::exit_request(manager, None),
                ContinuationView::After(After::Discard),
            )
        }),
{
    let manager = f.top();
    let typ = BlockType::With { end, context_manager: manager };
    let b = f.drop(1);
    let g = b.push_block(typ).push(value);
    lemma_push_all(g, values);
    let h = push_all(g, values);
    assert(h.stack == b.stack.push(value) + values);
    assert(h.stack.take(b.stack.len() as int) == b.stack);
    assert(h.blocks.drop_last() == b.blocks);
    assert(h.pop_block() == b);
}

/// Whether the stack has not fallen below the level of the block `i`, neither now nor when the
/// blocks inside it were entered.
pub open spec fn encloses(f: FrameView, i: int) -> bool {
    &&& f.blocks[i].level <= f.stack.len()
    &&& forall|j: int|
        i <= j < f.blocks.len() ==> f.blocks[i].level <= (#[trigger] f.blocks[j]).level
}

/// Leaving a block with all blocks inside it puts the stack back to the level of that block, where
/// the stack did not fall below it.
pub proof fn leaving_block_restores_stack(f: FrameView, i: int)
    requires
        0 <= i < f.blocks.len(),
        encloses(f, i),
    ensures
        f.pop_blocks_to(i).stack == f.stack.take(f.blocks[i].level as int),
        f.pop_blocks_to(i).blocks == f.blocks.take(i),
    decreases f.blocks.len(),
{
    let g = f.pop_block();
    lemma_pop_blocks_to(f, i);
    assert(f.pop_blocks_to(i) == g.pop_blocks_to(i));
    if f.blocks.len() > i + 1 {
        assert forall|j: int| i <= j < g.blocks.len() implies g.blocks[i].level <= (
        #[trigger] g.blocks[j]).level by {
            assert(g.blocks[j] == f.blocks[j]);
        }
        leaving_block_restores_stack(g, i);
        assert(g.stack.take(f.blocks[i].level as int) == f.stack.take(f.blocks[i].level as int));
    } else {
        assert(g.pop_blocks_to(i) == g);
    }
}

/// What `break` does: the innermost loop is left, with all blocks in it, and execution goes on
/// behind it. What `continue` does: the blocks in the innermost loop are left, and execution goes
/// on at its start. Context managers that lie between come first, the innermost of them first.
pub proof fn jump_out_of_loop_body(f: FrameView, jump: LoopJump)
    requires
        model::can_unwind_loop(f, jump),
    ensures
        ({
            let i = model::innermost(f.blocks, Halt::Jump);
            let (g, step) = model::unwind_loop(f, jump);
            &&& forall|j: int| i < j < f.blocks.len() ==> (#[trigger] f.blocks[j]).typ is TryExcept
            &&& match f.blocks[i].typ {
                BlockType::Loop { start, end } => {
                    &&& step == model::go_on(g).1
                    &&& g.blocks == f.blocks.take(
                        if jump == LoopJump::Break {
                            i
                        } else {
                            i + 1
                        },
                    )
                    &&& g.lasti == f.code.label_map@[
                        if jump == LoopJump::Break {
                            end
                        } else {
                            start
                        }
                    ]
                    &&& jump == LoopJump::Break && encloses(f, i) ==> g.stack == f.stack.take(
                        f.blocks[i].level as int,
                    )
                },
                BlockType::With { end, context_manager } => {
                    &&& step == (StepView::Ask {
                        request: model::exit_request(context_manager, None),
                        resume: ContinuationView::After(After::LoopExit { jump }),
                    })
                    &&& g.blocks == f.blocks.take(i + 1)
                },
                _ => false,
            }
        }),
{
    let i = model::innermost(f.blocks, Halt::Jump);
    lemma_innermost(f.blocks, Halt::Jump);
    lemma_pop_blocks_to(f, i + 1);
    assert(f.blocks.take(i + 1).drop_last() == f.blocks.take(i));
    if f.blocks[i].typ is Loop && encloses(f, i) {
        let g = f.pop_blocks_to(i + 1);
        leaving_block_restores_stack(f, i);
        lemma_pop_blocks_twice(f, i + 1, i);
        assert(g.pop_blocks_to(i) == g.pop_block().pop_blocks_to(i));
    }
}

/// Returning leaves every block, and nothing else comes of it than the value, once no context
/// manager is left.
pub proof fn return_leaves_all_blocks(f: FrameView, value: PyObjectRef)
    ensures
        ({
            let i = model::innermost(f.blocks, Halt::Return);
            let (g, step) = model::unwind_blocks(f, value);
            &&& i < 0 <==> (forall|j: int|
                0 <= j < f.blocks.len() ==> !((#[trigger] f.blocks[j]).typ is With))
            &&& i < 0 ==> g.blocks.len() == 0 && step == StepView::Finished(
                Ok(Some(ExecutionResult::Return(value))),
            )
            &&& i >= 0 ==> g.blocks == f.blocks.take(i)
        }),
{
    let i = model::innermost(f.blocks, Halt::Return);
    lemma_innermost(f.blocks, Halt::Return);
    lemma_pop_blocks_to(
        f,
        if i < 0 {
            0
        } else {
            i
        },
    );
}

// Exceptions.

/// A handler takes the exception on top of the stack that its block was entered with; what has
/// come onto the stack since is gone.
pub proof fn handler_takes_exception(f: FrameView, exc: PyObjectRef)
    requires
        run::can_unwind_exception(f),
    ensures
        ({
            let i = model::innermost(f.blocks, Halt::Exception);
            let (g, unwound) = run::unwind_exception(f, exc);
            i >= 0 && f.blocks[i].typ is TryExcept ==> {
                &&& unwound is Handled
                &&& g.top() == exc
                &&& g.drop(1).stack.is_prefix_of(f.stack)
                &&& g.stack.len() <= f.blocks[i].level + 1
                &&& encloses(f, i) ==> g.stack == f.stack.take(f.blocks[i].level as int).push(exc)
                &&& g.blocks == f.blocks.take(i)
                &&& g.lasti == f.code.label_map@[f.blocks[i].typ->handler]
            }
        }),
{
    let i = model::innermost(f.blocks, Halt::Exception);
    lemma_innermost(f.blocks, Halt::Exception);
    if i >= 0 {
        lemma_pop_blocks_to(f, i);
        lemma_pop_blocks_cuts(f, i);
        if encloses(f, i) {
            leaving_block_restores_stack(f, i);
        }
        let g = f.pop_blocks_to(i);
        assert(g.stack.push(exc).take(g.stack.len() as int) == g.stack);
    }
}

/// Leaving blocks cuts the stack down to the level of the outermost one that is left.
proof fn lemma_pop_blocks_cuts(f: FrameView, count: int)
    requires
        0 <= count < f.blocks.len(),
    ensures
        f.pop_blocks_to(count).stack.len() <= f.blocks[count].level,
    decreases f.blocks.len(),
{
    if f.blocks.len() > count + 1 {
        lemma_pop_blocks_cuts(f.pop_block(), count);
    } else {
        assert(f.pop_blocks_to(count) == f.pop_block().pop_blocks_to(count));
        assert(f.pop_block().pop_blocks_to(count) == f.pop_block());
    }
}

/// An exception leaves the frame only when no handler and no context manager is left, or when a
/// context manager raises another one.
pub proof fn exception_escapes_last(f: FrameView, exc: PyObjectRef)
    ensures
        ({
            let (g, unwound) = run::unwind_exception(f, exc);
            &&& unwound is Escaped <==> (forall|j: int|
                0 <= j < f.blocks.len() ==> (#[trigger] f.blocks[j]).typ is Loop)
            &&& unwound is Escaped ==> unwound == UnwoundView::Escaped(exc) && g.blocks.len() == 0
        }),
{
    let i = model::innermost(f.blocks, Halt::Exception);
    lemma_innermost(f.blocks, Halt::Exception);
    lemma_pop_blocks_to(
        f,
        if i < 0 {
            0
        } else {
            i
        },
    );
    if i >= 0 {
        assert(!(f.blocks[i].typ is Loop));
    }
}

/// Before it is dealt with, every exception that an instruction raises gets an entry in its
/// traceback that says where the instruction came from.
pub proof fn exception_is_traced(
    f: FrameView,
    lineno: Location,
    exc: PyObjectRef,
    traceback: PyObjectRef,
    position: PyObjectRef,
    done: PyObjectRef,
)
    ensures
        run::stepped(lineno, StepView::Finished(Err(exc))) == Some(
            asking(run::check_request(exc), lineno, Handling::Check { exc }),
        ),
        run::handle(f, lineno, Handling::Check { exc }, ReplyView::Truth(true)) == (
            f,
            unwinding(Service::GetTraceback { exc }, Handling::Traceback { exc }),
        ),
        run::handle(f, lineno, Handling::Traceback { exc }, ReplyView::Value(traceback)) == (
            f,
            unwinding(
                (Service::NewPosition {
                    filename: f.code.source_path,
                    row: lineno.row,
                    name: f.code.obj_name,
                }),
                Handling::Position { exc, traceback },
            ),
        ),
        run::handle(
            f,
            lineno,
            Handling::Position { exc, traceback },
            ReplyView::Value(position),
        ) == (
            f,
            unwinding(
                (Service::ListAppend { list: traceback, item: position }),
                Handling::Append { exc },
            ),
        ),
        run::handle(f, lineno, Handling::Append { exc }, ReplyView::Value(done))
            == run::unwind_exception(f, exc),
{
}

/// A turn that ends by asking for something while an exception is dealt with.
pub open spec fn asking(request: RequestView, lineno: Location, handling: Handling) -> TurnView {
    TurnView::Ask {
        request,
        suspended: SuspendedView { lineno, activity: ActivityView::Handling(handling) },
    }
}

/// Dealing with an exception asks for a service.
pub open spec fn unwinding(service: Service, handling: Handling) -> UnwoundView {
    UnwoundView::Ask { request: RequestView::Service(service), handling }
}

/// A context manager that answers with a true value has dealt with the exception: execution goes
/// on at the end of its block. With a false value the exception goes further out. If it raises an
/// exception itself, that one leaves the frame.
pub proof fn context_manager_decides(
    f: FrameView,
    lineno: Location,
    end: Label,
    exc: PyObjectRef,
    truth: bool,
    raised: PyObjectRef,
)
    requires
        f.has_label(end),
    ensures
        run::handle(f, lineno, Handling::Verdict { end, exc }, ReplyView::Truth(truth)) == (
            if truth {
                (f.jump(end), UnwoundView::Handled)
            } else {
                run::unwind_exception(f, exc)
            }),
        run::handle(f, lineno, Handling::Exit { end, exc }, ReplyView::Failed(raised)) == (
            f,
            UnwoundView::Escaped(raised),
        ),
        run::handle(f, lineno, Handling::Verdict { end, exc }, ReplyView::Failed(raised)) == (
            f,
            UnwoundView::Escaped(raised),
        ),
{
}

// Comparisons.

/// `is not` says the opposite of `is`.
pub proof fn is_not_negates_is(f: FrameView)
    requires
        f.stack.len() >= 2,
    ensures
        model::compare(f, ComparisonOperator::Is) == model::new_bool(
            f.drop(2),
            f.nth(1).id == f.nth(0).id,
        ),
        model::compare(f, ComparisonOperator::IsNot) == model::new_bool(
            f.drop(2),
            !(f.nth(1).id == f.nth(0).id),
        ),
{
}

/// `not in` asks the same question as `in` and pushes the opposite of the answer.
pub proof fn not_in_negates_in(f: FrameView, found: PyObjectRef, truth: bool)
    requires
        f.stack.len() >= 2,
    ensures
        ({
            let haystack = f.nth(0);
            let (g, step) = model::compare(f, ComparisonOperator::In);
            let (h, other) = model::compare(f, ComparisonOperator::NotIn);
            &&& g == h
            &&& step->request == other->request
            &&& model::resume(g, step->resume, ReplyView::Value(found)) == model::go_on(
                g.push(found),
            )
            &&& model::resume(h, other->resume, ReplyView::Value(found)) == model::ask_query(
                h,
                Query::BoolValue { obj: found },
                After::Negate,
            )
            &&& model::resume(
                h,
                ContinuationView::After(After::Negate),
                ReplyView::Truth(truth),
            ) == model::new_bool(h, !truth)
        }),
{
}

// Runs.

/// A run that is paused goes on as if it had not been.
pub proof fn runs_can_be_split(f: FrameView, first: nat, second: nat, directory: String)
    ensures
        ({
            let (g, turn) = run::run(f, first, directory);
            run::run(f, first + second, directory) == (if turn is Paused {
                run::run(g, second, directory)
            } else {
                (g, turn)
            })
        }),
    decreases first,
{
    if first > 0 && run::can_run(f) {
        let (g, step) = model::start(f, directory);
        if run::stepped(f.code.locations@[f.lasti], step) is None {
            runs_can_be_split(g, (first - 1) as nat, second, directory);
            assert((first - 1) as nat + second == (first + second - 1) as nat);
        }
    }
}

} // verus!
