//! What compound statements do: loops, `try`, `with`, and the return from inside them.
//!
//! The laws speak of a frame in which a block was entered and of any later frame of the same code
//! in which that block is still entered, with other blocks inside it.

use crate::bytecode::{Instruction, Label, Location};
use crate::continuation::{ExecutionResult, LoopJump, StepView};
use crate::conversation::{asked, can_hear, hear, value_replies};
use crate::effects::{
    answered, asks, call, leads, moved, over, performs, place, raised, value_at, without,
};
use crate::frame::{Block, BlockType, FrameView};
use crate::laws::{encloses, leaving_block_restores_stack};
use crate::leaving::{
    asked_out, exception_passes_managers, exit_requests, handler_index, hear_out, loop_index,
    loop_jump_tells_each_manager, managers, refusal_requests, refusals, return_tells_each_manager,
};
use crate::model;
use crate::model::Halt;
use crate::object::PyObjectRef;
use crate::request::{Method, Operand, ReplyView, RequestView, Service};
use crate::run;
use crate::run::UnwoundView;
use crate::unwind::{lemma_innermost, lemma_pop_blocks_to};
use vstd::prelude::*;

verus! {

/// The frame with another stack of blocks and another stack of values.
pub open spec fn rebuilt(f: FrameView, blocks: Seq<Block>, stack: Seq<PyObjectRef>) -> FrameView {
    FrameView { code: f.code, stack, blocks, locals: f.locals, lasti: f.lasti }
}

/// What is left of a stack that goes back to a level that it is not below.
pub open spec fn lowered(stack: Seq<PyObjectRef>, level: usize) -> Seq<PyObjectRef> {
    if level < stack.len() {
        stack.take(level as int)
    } else {
        stack
    }
}

/// What is left of a stack when all but the outermost `count` blocks are left, the innermost first,
/// each of which takes the stack back to its level.
pub open spec fn lowered_by(blocks: Seq<Block>, count: int, stack: Seq<PyObjectRef>) -> Seq<
    PyObjectRef,
>
    decreases blocks.len(),
{
    if blocks.len() == 0 || blocks.len() <= count {
        stack
    } else {
        lowered_by(blocks.drop_last(), count, lowered(stack, blocks.last().level))
    }
}

proof fn lemma_lowered_by(f: FrameView, count: int)
    requires
        0 <= count <= f.blocks.len(),
    ensures
        f.pop_blocks_to(count).stack == lowered_by(f.blocks, count, f.stack),
    decreases f.blocks.len(),
{
    if f.blocks.len() > count {
        assert(lowered(f.stack, f.blocks.last().level) == f.pop_block().stack);
        lemma_lowered_by(f.pop_block(), count);
    }
}

/// A context manager is told that its block is left without an exception.
pub open spec fn told_of_end(context_manager: PyObjectRef) -> RequestView {
    call(
        context_manager,
        Method::Exit,
        seq![Operand::NoneObject, Operand::NoneObject, Operand::NoneObject],
    )
}

/// A context manager is told of an exception by its type and itself.
pub open spec fn told_of_exception(context_manager: PyObjectRef, exc: PyObjectRef) -> RequestView {
    call(
        context_manager,
        Method::Exit,
        seq![Operand::TypeOf(exc), Operand::Object(exc), Operand::NoneObject],
    )
}

/// Whether `h` is a frame of the same code and scope as `f`.
pub open spec fn same_activation(f: FrameView, h: FrameView) -> bool {
    h.code == f.code && h.locals == f.locals
}

/// Whether the values of `stack` still lie lowest in `h`, and all of `inner` were entered above
/// them.
pub open spec fn rests_on(stack: Seq<PyObjectRef>, h: FrameView, inner: Seq<Block>) -> bool {
    &&& stack.is_prefix_of(h.stack)
    &&& forall|j: int| 0 <= j < inner.len() ==> stack.len() <= (#[trigger] inner[j]).level
}

// Entering blocks.

/// A loop or a handler is entered as a block that remembers its labels and the height of the
/// stack; nothing else changes.
pub proof fn blocks_are_entered(
    f: FrameView,
    start: Label,
    end: Label,
    handler: Label,
    directory: String,
)
    requires
        f.stack.len() <= usize::MAX,
    ensures
        model::can_execute(f, Instruction::SetupLoop { start, end }),
        ({
            let o = model::execute(f, Instruction::SetupLoop { start, end }, directory);
            &&& o == over(o.0)
            &&& o.0.blocks.len() == f.blocks.len() + 1
            &&& o.0 == rebuilt(f, f.blocks.push(o.0.blocks.last()), f.stack)
            &&& o.0.blocks.last().level == f.stack.len()
            &&& o.0.blocks.last().typ matches BlockType::Loop { start: s, end: e }
            &&& s == start
            &&& e == end
        }),
        model::can_execute(f, Instruction::SetupExcept { handler }),
        ({
            let o = model::execute(f, Instruction::SetupExcept { handler }, directory);
            &&& o == over(o.0)
            &&& o.0.blocks.len() == f.blocks.len() + 1
            &&& o.0 == rebuilt(f, f.blocks.push(o.0.blocks.last()), f.stack)
            &&& o.0.blocks.last().level == f.stack.len()
            &&& o.0.blocks.last().typ matches BlockType::TryExcept { handler: h }
            &&& h == handler
        }),
{
}

/// A `with` statement takes the context manager off the stack, calls its `__enter__`, enters a
/// block that remembers the manager, the end and the height of the stack, and pushes what
/// `__enter__` gave. If that fails, no block is entered.
pub proof fn with_statement_is_entered(
    f: FrameView,
    end: Label,
    value: PyObjectRef,
    exc: PyObjectRef,
    directory: String,
)
    requires
        f.stack.len() <= usize::MAX,
    ensures
        model::can_execute(f, Instruction::SetupWith { end }) <==> f.stack.len() >= 1,
        f.stack.len() >= 1 ==> ({
            let o = model::execute(f, Instruction::SetupWith { end }, directory);
            let p = answered(o, ReplyView::Value(value));
            let g = without(f, 1);
            &&& asks(o, g, call(value_at(f, 0), Method::Enter, seq![]))
            &&& leads(o, ReplyView::Failed(exc), raised(g, exc))
            &&& can_hear(o, ReplyView::Value(value))
            &&& p == over(p.0)
            &&& p.0.blocks.len() == f.blocks.len() + 1
            &&& p.0 == rebuilt(f, f.blocks.push(p.0.blocks.last()), g.stack.push(value))
            &&& p.0.blocks.last().level == f.stack.len() - 1
            &&& p.0.blocks.last().typ matches BlockType::With { end: e, context_manager }
            &&& e == end
            &&& context_manager == value_at(f, 0)
        }),
{
}

// Leaving blocks one by one.

/// A block that is left takes the stack back to its level.
pub proof fn block_is_left(f: FrameView, directory: String)
    ensures
        model::can_execute(f, Instruction::PopBlock) <==> f.blocks.len() > 0,
        f.blocks.len() > 0 ==> model::execute(f, Instruction::PopBlock, directory) == over(
            rebuilt(f, f.blocks.drop_last(), lowered(f.stack, f.blocks.last().level)),
        ),
{
    if f.blocks.len() > 0 {
        assert(lowered(f.stack, f.blocks.last().level) == f.pop_block().stack);
    }
}

/// At the end of a `with` statement its block, which must be the innermost, is left, and the
/// context manager is told that there was no exception.
pub proof fn with_statement_is_ended(
    f: FrameView,
    end: Label,
    value: PyObjectRef,
    exc: PyObjectRef,
    directory: String,
)
    ensures
        model::can_execute(f, Instruction::CleanupWith { end }) <==> f.blocks.len() > 0
            && f.blocks.last().typ is With && f.blocks.last().typ->With_end == end,
        model::can_execute(f, Instruction::CleanupWith { end }) ==> performs(
            model::execute(f, Instruction::CleanupWith { end }, directory),
            rebuilt(f, f.blocks.drop_last(), lowered(f.stack, f.blocks.last().level)),
            told_of_end(f.blocks.last().typ->context_manager),
            value,
            exc,
        ),
{
    if f.blocks.len() > 0 {
        assert(lowered(f.stack, f.blocks.last().level) == f.pop_block().stack);
    }
}

// Blocks inside others.

proof fn lemma_inner_managers(outer: Seq<Block>, inner: Seq<Block>)
    ensures
        managers(outer + inner, outer.len() as int) == managers(inner, 0),
    decreases inner.len(),
{
    if inner.len() == 0 {
        assert(outer + inner == outer);
    } else {
        lemma_inner_managers(outer, inner.drop_last());
        assert((outer + inner).drop_last() == outer + inner.drop_last());
    }
}

proof fn lemma_inner_loop(outer: Seq<Block>, inner: Seq<Block>)
    requires
        outer.len() > 0,
        outer.last().typ is Loop,
        forall|j: int| 0 <= j < inner.len() ==> !((#[trigger] inner[j]).typ is Loop),
    ensures
        loop_index(outer + inner) == outer.len() - 1,
    decreases inner.len(),
{
    if inner.len() == 0 {
        assert(outer + inner == outer);
    } else {
        assert(!(inner[inner.len() - 1].typ is Loop));
        assert forall|j: int| 0 <= j < inner.len() - 1 implies !((
        #[trigger] inner.drop_last()[j]).typ is Loop) by {
            assert(inner.drop_last()[j] == inner[j]);
        }
        lemma_inner_loop(outer, inner.drop_last());
        assert((outer + inner).drop_last() == outer + inner.drop_last());
    }
}

proof fn lemma_inner_handler(outer: Seq<Block>, inner: Seq<Block>)
    requires
        outer.len() > 0,
        outer.last().typ is TryExcept,
        forall|j: int| 0 <= j < inner.len() ==> !((#[trigger] inner[j]).typ is TryExcept),
    ensures
        handler_index(outer + inner) == outer.len() - 1,
    decreases inner.len(),
{
    if inner.len() == 0 {
        assert(outer + inner == outer);
    } else {
        assert(!(inner[inner.len() - 1].typ is TryExcept));
        assert forall|j: int| 0 <= j < inner.len() - 1 implies !((
        #[trigger] inner.drop_last()[j]).typ is TryExcept) by {
            assert(inner.drop_last()[j] == inner[j]);
        }
        lemma_inner_handler(outer, inner.drop_last());
        assert((outer + inner).drop_last() == outer + inner.drop_last());
    }
}

/// Leaving blocks that were entered above some values leaves those values.
proof fn lemma_pop_blocks_keep(f: FrameView, count: int, height: int)
    requires
        0 <= count <= f.blocks.len(),
        0 <= height <= f.stack.len(),
        forall|j: int| count <= j < f.blocks.len() ==> height <= (#[trigger] f.blocks[j]).level,
    ensures
        f.pop_blocks_to(count).stack.len() >= height,
    decreases f.blocks.len(),
{
    if f.blocks.len() > count {
        let g = f.pop_block();
        assert(height <= f.blocks[f.blocks.len() - 1].level);
        assert forall|j: int| count <= j < g.blocks.len() implies height <= (
        #[trigger] g.blocks[j]).level by {
            assert(g.blocks[j] == f.blocks[j]);
        }
        lemma_pop_blocks_keep(g, count, height);
    }
}

proof fn lemma_told_of_end(context_managers: Seq<PyObjectRef>)
    ensures
        exit_requests(context_managers, None) == context_managers.map_values(
            |m: PyObjectRef| told_of_end(m),
        ),
{
    assert forall|i: int| 0 <= i < context_managers.len() implies #[trigger] exit_requests(
        context_managers,
        None,
    )[i] == told_of_end(context_managers[i]) by {
        assert(model::exit_args(None) == seq![
            Operand::NoneObject,
            Operand::NoneObject,
            Operand::NoneObject,
        ]);
    }
}

// Loops.

/// Whether blocks can be left on the way out of a loop body: up to the innermost block that is no
/// handler. If that is a loop, its label must be known; if there is none, nothing can be left.
pub proof fn loop_body_can_be_left(f: FrameView, i: int)
    requires
        -1 <= i < f.blocks.len(),
        i >= 0 ==> !(f.blocks[i].typ is TryExcept),
        forall|j: int| i < j < f.blocks.len() ==> (#[trigger] f.blocks[j]).typ is TryExcept,
    ensures
        i < 0 ==> !model::can_execute(f, Instruction::Break),
        i < 0 ==> !model::can_execute(f, Instruction::Continue),
        i >= 0 && f.blocks[i].typ is With ==> model::can_execute(f, Instruction::Break),
        i >= 0 && f.blocks[i].typ is With ==> model::can_execute(f, Instruction::Continue),
        i >= 0 ==> (f.blocks[i].typ matches BlockType::Loop { start, end } ==> {
            &&& model::can_execute(f, Instruction::Break) <==> f.code.label_map@.contains_key(end)
            &&& model::can_execute(f, Instruction::Continue) <==> f.code.label_map@.contains_key(
                start,
            )
        }),
{
    lemma_innermost(f.blocks, Halt::Jump);
    let k = model::innermost(f.blocks, Halt::Jump);
    if k > i {
        assert(f.blocks[k].typ is TryExcept);
    }
    if k < i {
        assert(!Halt::Jump.at(f.blocks[i]));
    }
    assert(k == i);
}

/// In the body of a loop, with any handlers and context managers inside it, `break` tells those
/// managers, the innermost first, that their blocks are left; then the block of the loop is left,
/// the stack is as it was when the loop was set up, and execution goes on at its end.
pub proof fn break_goes_behind_the_loop(
    f: FrameView,
    start: Label,
    end: Label,
    h: FrameView,
    inner: Seq<Block>,
    answers: Seq<PyObjectRef>,
    directory: String,
)
    requires
        f.stack.len() <= usize::MAX,
        same_activation(f, h),
        h.blocks == model::execute(
            f,
            Instruction::SetupLoop { start, end },
            directory,
        ).0.blocks + inner,
        forall|j: int| 0 <= j < inner.len() ==> !((#[trigger] inner[j]).typ is Loop),
        f.code.label_map@.contains_key(end),
        answers.len() == managers(inner, 0).len(),
    ensures
        model::can_execute(h, Instruction::Break),
        ({
            let o = model::execute(h, Instruction::Break, directory);
            let r = hear(o, value_replies(answers))->0;
            &&& asked(o, value_replies(answers)) == managers(inner, 0).map_values(
                |m: PyObjectRef| told_of_end(m),
            )
            &&& hear(o, value_replies(answers)) is Some
            &&& r == over(r.0)
            &&& same_activation(f, r.0)
            &&& r.0.lasti == place(f, end)
            &&& r.0.blocks == f.blocks
            &&& r.0.stack == lowered_by(h.blocks, f.blocks.len() as int, h.stack)
            &&& rests_on(f.stack, h, inner) ==> r.0.stack == f.stack
        }),
{
    let outer = model::execute(f, Instruction::SetupLoop { start, end }, directory).0.blocks;
    let l = f.blocks.len() as int;
    lemma_inner_loop(outer, inner);
    lemma_inner_managers(outer, inner);
    assert(h.blocks[l] == outer[l]);
    loop_jump_tells_each_manager(h, LoopJump::Break, answers);
    lemma_told_of_end(managers(inner, 0));
    lemma_pop_blocks_to(h, l);
    lemma_lowered_by(h, l);
    assert(h.blocks.take(l) == f.blocks);
    if rests_on(f.stack, h, inner) {
        assert forall|j: int| l <= j < h.blocks.len() implies h.blocks[l].level <= (
        #[trigger] h.blocks[j]).level by {
            if j > l {
                assert(h.blocks[j] == inner[j - l - 1]);
            }
        }
        assert(encloses(h, l));
        leaving_block_restores_stack(h, l);
        assert(h.stack.take(f.stack.len() as int) == f.stack);
    }
}

/// In the body of a loop, with any handlers and context managers inside it, `continue` tells those
/// managers, the innermost first, that their blocks are left; the block of the loop stays entered,
/// and execution goes on at its start.
pub proof fn continue_goes_to_start_of_the_loop(
    f: FrameView,
    start: Label,
    end: Label,
    h: FrameView,
    inner: Seq<Block>,
    answers: Seq<PyObjectRef>,
    directory: String,
)
    requires
        f.stack.len() <= usize::MAX,
        same_activation(f, h),
        h.blocks == model::execute(
            f,
            Instruction::SetupLoop { start, end },
            directory,
        ).0.blocks + inner,
        forall|j: int| 0 <= j < inner.len() ==> !((#[trigger] inner[j]).typ is Loop),
        f.code.label_map@.contains_key(start),
        answers.len() == managers(inner, 0).len(),
    ensures
        model::can_execute(h, Instruction::Continue),
        ({
            let o = model::execute(h, Instruction::Continue, directory);
            let r = hear(o, value_replies(answers))->0;
            &&& asked(o, value_replies(answers)) == managers(inner, 0).map_values(
                |m: PyObjectRef| told_of_end(m),
            )
            &&& hear(o, value_replies(answers)) is Some
            &&& r == over(r.0)
            &&& same_activation(f, r.0)
            &&& r.0.lasti == place(f, start)
            &&& r.0.blocks == h.blocks.take(f.blocks.len() as int + 1)
            &&& r.0.stack == lowered_by(h.blocks, f.blocks.len() as int + 1, h.stack)
            &&& rests_on(f.stack, h, inner) ==> f.stack.is_prefix_of(r.0.stack)
            &&& inner.len() == 0 ==> r.0.stack == h.stack
            &&& inner.len() > 0 && encloses(h, f.blocks.len() as int + 1) ==> r.0.stack
                == h.stack.take(inner[0].level as int)
        }),
{
    let outer = model::execute(f, Instruction::SetupLoop { start, end }, directory).0.blocks;
    let l = f.blocks.len() as int;
    lemma_inner_loop(outer, inner);
    lemma_inner_managers(outer, inner);
    assert(h.blocks[l] == outer[l]);
    loop_jump_tells_each_manager(h, LoopJump::Continue, answers);
    lemma_told_of_end(managers(inner, 0));
    lemma_pop_blocks_to(h, l + 1);
    lemma_lowered_by(h, l + 1);
    if rests_on(f.stack, h, inner) {
        assert forall|j: int| l + 1 <= j < h.blocks.len() implies f.stack.len() <= (
        #[trigger] h.blocks[j]).level by {
            assert(h.blocks[j] == inner[j - l - 1]);
        }
        lemma_pop_blocks_keep(h, l + 1, f.stack.len() as int);
    }
    if inner.len() > 0 && encloses(h, l + 1) {
        assert(h.blocks[l + 1] == inner[0]);
        leaving_block_restores_stack(h, l + 1);
    }
}

// Exceptions.

/// Whether an exception can be dealt with in a frame: the innermost block that is no loop must not
/// be a handler at a label that the code lacks.
pub proof fn exception_can_be_dealt_with(f: FrameView, i: int)
    requires
        -1 <= i < f.blocks.len(),
        i >= 0 ==> !(f.blocks[i].typ is Loop),
        forall|j: int| i < j < f.blocks.len() ==> (#[trigger] f.blocks[j]).typ is Loop,
    ensures
        run::can_unwind_exception(f) <==> !(i >= 0 && f.blocks[i].typ is TryExcept
            && !f.code.label_map@.contains_key(f.blocks[i].typ->handler)),
{
    lemma_innermost(f.blocks, Halt::Exception);
    let k = model::innermost(f.blocks, Halt::Exception);
    if k > i {
        assert(f.blocks[k].typ is Loop);
    }
    if k < i {
        assert(!Halt::Exception.at(f.blocks[i]));
    }
    assert(k == i);
}

/// For each context manager: it is told of the exception, and the truth of its answer is asked for.
pub open spec fn refused_by(
    context_managers: Seq<PyObjectRef>,
    exc: PyObjectRef,
    actions: Seq<PyObjectRef>,
) -> Seq<RequestView>
    decreases actions.len(),
{
    if actions.len() == 0 {
        seq![]
    } else {
        seq![
            told_of_exception(context_managers.first(), exc),
            RequestView::Service(Service::BoolVal { obj: actions.first() }),
        ] + refused_by(context_managers.drop_first(), exc, actions.drop_first())
    }
}

proof fn lemma_refused_by(
    context_managers: Seq<PyObjectRef>,
    exc: PyObjectRef,
    actions: Seq<PyObjectRef>,
)
    ensures
        refusal_requests(context_managers, exc, actions) == refused_by(
            context_managers,
            exc,
            actions,
        ),
    decreases actions.len(),
{
    if actions.len() > 0 {
        lemma_refused_by(context_managers.drop_first(), exc, actions.drop_first());
        assert(model::exit_args(Some(exc)) == seq![
            Operand::TypeOf(exc),
            Operand::Object(exc),
            Operand::NoneObject,
        ]);
    }
}

/// In the body of a `try` statement, with any loops and context managers inside it, an exception
/// that those managers, the innermost first, are told of and do not deal with comes to the handler:
/// the block of the statement is left, the stack is as it was when that was set up with the
/// exception on top, and execution goes on at the handler.
pub proof fn handler_runs_with_the_exception(
    f: FrameView,
    handler: Label,
    h: FrameView,
    inner: Seq<Block>,
    lineno: Location,
    exc: PyObjectRef,
    actions: Seq<PyObjectRef>,
    directory: String,
)
    requires
        f.stack.len() <= usize::MAX,
        same_activation(f, h),
        h.blocks == model::execute(
            f,
            Instruction::SetupExcept { handler },
            directory,
        ).0.blocks + inner,
        forall|j: int| 0 <= j < inner.len() ==> !((#[trigger] inner[j]).typ is TryExcept),
        f.code.label_map@.contains_key(handler),
        actions.len() == managers(inner, 0).len(),
    ensures
        run::can_unwind_exception(h),
        ({
            let (g, unwound) = run::unwind_exception(h, exc);
            let r = hear_out(g, unwound, lineno, refusals(actions))->0;
            &&& asked_out(g, unwound, lineno, refusals(actions)) == refused_by(
                managers(inner, 0),
                exc,
                actions,
            )
            &&& hear_out(g, unwound, lineno, refusals(actions)) is Some
            &&& r.1 is Handled
            &&& same_activation(f, r.0)
            &&& r.0.lasti == place(f, handler)
            &&& r.0.blocks == f.blocks
            &&& r.0.stack.len() > 0
            &&& r.0.stack.last() == exc
            &&& r.0.stack.drop_last() == lowered_by(h.blocks, f.blocks.len() as int, h.stack)
            &&& rests_on(f.stack, h, inner) ==> r.0.stack == f.stack.push(exc)
        }),
{
    let outer = model::execute(f, Instruction::SetupExcept { handler }, directory).0.blocks;
    let l = f.blocks.len() as int;
    lemma_inner_handler(outer, inner);
    lemma_inner_managers(outer, inner);
    assert(h.blocks[l] == outer[l]);
    exception_passes_managers(h, lineno, exc, actions);
    lemma_refused_by(managers(inner, 0), exc, actions);
    lemma_pop_blocks_to(h, l);
    lemma_lowered_by(h, l);
    assert(h.blocks.take(l) == f.blocks);
    assert(h.pop_blocks_to(l).stack.push(exc).drop_last() == h.pop_blocks_to(l).stack);
    if rests_on(f.stack, h, inner) {
        assert forall|j: int| l <= j < h.blocks.len() implies h.blocks[l].level <= (
        #[trigger] h.blocks[j]).level by {
            if j > l {
                assert(h.blocks[j] == inner[j - l - 1]);
            }
        }
        assert(encloses(h, l));
        leaving_block_restores_stack(h, l);
        assert(h.stack.take(f.stack.len() as int) == f.stack);
    }
}

/// Where no handler is entered, an exception that the context managers, the innermost first, are
/// told of and do not deal with leaves the frame, and all blocks are left.
pub proof fn exception_leaves_the_frame(
    f: FrameView,
    lineno: Location,
    exc: PyObjectRef,
    actions: Seq<PyObjectRef>,
)
    requires
        forall|j: int| 0 <= j < f.blocks.len() ==> !((#[trigger] f.blocks[j]).typ is TryExcept),
        actions.len() == managers(f.blocks, 0).len(),
    ensures
        run::can_unwind_exception(f),
        ({
            let (g, unwound) = run::unwind_exception(f, exc);
            let r = hear_out(g, unwound, lineno, refusals(actions))->0;
            &&& asked_out(g, unwound, lineno, refusals(actions)) == refused_by(
                managers(f.blocks, 0),
                exc,
                actions,
            )
            &&& hear_out(g, unwound, lineno, refusals(actions)) is Some
            &&& r.1 == UnwoundView::Escaped(exc)
            &&& r.0.blocks.len() == 0
            &&& same_activation(f, r.0)
            &&& r.0.lasti == f.lasti
            &&& r.0.stack == lowered_by(f.blocks, 0, f.stack)
        }),
{
    lemma_no_handler(f.blocks);
    exception_passes_managers(f, lineno, exc, actions);
    lemma_refused_by(managers(f.blocks, 0), exc, actions);
    lemma_pop_blocks_to(f, 0);
    lemma_lowered_by(f, 0);
}

proof fn lemma_no_handler(blocks: Seq<Block>)
    requires
        forall|j: int| 0 <= j < blocks.len() ==> !((#[trigger] blocks[j]).typ is TryExcept),
    ensures
        handler_index(blocks) == -1,
    decreases blocks.len(),
{
    if blocks.len() > 0 {
        assert(!(blocks[blocks.len() - 1].typ is TryExcept));
        assert forall|j: int| 0 <= j < blocks.len() - 1 implies !((
        #[trigger] blocks.drop_last()[j]).typ is TryExcept) by {
            assert(blocks.drop_last()[j] == blocks[j]);
        }
        lemma_no_handler(blocks.drop_last());
    }
}

/// In the body of a `with` statement, with any loops inside it, an exception is told to the context
/// manager, after the block was left and the stack put back to where it was below the manager. If
/// the truth of the answer is yes, execution goes on at the end of the statement. If it is no, the
/// exception goes on from there. If the manager or the question fails, that leaves the frame.
pub proof fn manager_deals_with_the_exception(
    f: FrameView,
    end: Label,
    value: PyObjectRef,
    h: FrameView,
    inner: Seq<Block>,
    lineno: Location,
    exc: PyObjectRef,
    action: PyObjectRef,
    failure: PyObjectRef,
    directory: String,
)
    requires
        1 <= f.stack.len() <= usize::MAX,
        same_activation(f, h),
        ({
            let o = model::execute(f, Instruction::SetupWith { end }, directory);
            h.blocks == answered(o, ReplyView::Value(value)).0.blocks + inner
        }),
        forall|j: int| 0 <= j < inner.len() ==> (#[trigger] inner[j]).typ is Loop,
    ensures
        run::can_unwind_exception(h),
        ({
            let manager = value_at(f, 0);
            let (g, unwound) = run::unwind_exception(h, exc);
            let asking = unwound->handling;
            let yes = ReplyView::Value(action);
            let no = ReplyView::Failed(failure);
            let (g1, next) = run::handle(g, lineno, asking, yes);
            let judging = next->handling;
            &&& unwound is Ask
            &&& unwound->request == told_of_exception(manager, exc)
            &&& same_activation(f, g)
            &&& g.lasti == h.lasti
            &&& g.blocks == f.blocks
            &&& g.stack == lowered_by(h.blocks, f.blocks.len() as int, h.stack)
            &&& rests_on(without(f, 1).stack, h, inner) ==> g.stack == without(f, 1).stack
            &&& run::can_handle(g, asking, no)
            &&& run::handle(g, lineno, asking, no) == (g, UnwoundView::Escaped(failure))
            &&& run::can_handle(g, asking, yes)
            &&& g1 == g
            &&& next is Ask
            &&& next->request == RequestView::Service(Service::BoolVal { obj: action })
            &&& run::can_handle(g, judging, no)
            &&& run::handle(g, lineno, judging, no) == (g, UnwoundView::Escaped(failure))
            &&& run::can_unwind_exception(g) ==> {
                &&& run::can_handle(g, judging, ReplyView::Truth(false))
                &&& run::handle(g, lineno, judging, ReplyView::Truth(false))
                    == run::unwind_exception(g, exc)
            }
            &&& f.code.label_map@.contains_key(end) ==> {
                &&& run::can_handle(g, judging, ReplyView::Truth(true))
                &&& run::handle(g, lineno, judging, ReplyView::Truth(true)) == (
                    moved(g, place(f, end)),
                    UnwoundView::Handled,
                )
            }
        }),
{
    let o = model::execute(f, Instruction::SetupWith { end }, directory);
    let outer = answered(o, ReplyView::Value(value)).0.blocks;
    let l = f.blocks.len() as int;
    let k = model::innermost(h.blocks, Halt::Exception);
    lemma_innermost(h.blocks, Halt::Exception);
    assert(h.blocks[l] == outer[l]);
    if k > l {
        assert(h.blocks[k] == inner[k - l - 1]);
    }
    if k < l {
        assert(!Halt::Exception.at(h.blocks[l]));
    }
    assert(k == l);
    lemma_pop_blocks_to(h, l);
    lemma_lowered_by(h, l);
    assert(h.blocks.take(l) == f.blocks);
    assert(model::exit_args(Some(exc)) == seq![
        Operand::TypeOf(exc),
        Operand::Object(exc),
        Operand::NoneObject,
    ]);
    let stack = without(f, 1).stack;
    if rests_on(stack, h, inner) {
        assert forall|j: int| l <= j < h.blocks.len() implies h.blocks[l].level <= (
        #[trigger] h.blocks[j]).level by {
            if j > l {
                assert(h.blocks[j] == inner[j - l - 1]);
            }
        }
        assert(encloses(h, l));
        leaving_block_restores_stack(h, l);
        assert(h.stack.take(stack.len() as int) == stack);
    }
}

// Returning.

/// Returning takes the topmost value, tells every context manager, the innermost first, that its
/// block is left, leaves all blocks, and hands the value out.
pub proof fn return_hands_out_the_value(
    f: FrameView,
    answers: Seq<PyObjectRef>,
    directory: String,
)
    ensures
        model::can_execute(f, Instruction::ReturnValue) <==> f.stack.len() >= 1,
        f.stack.len() >= 1 && answers.len() == managers(f.blocks, 0).len() ==> ({
            let o = model::execute(f, Instruction::ReturnValue, directory);
            let r = hear(o, value_replies(answers))->0;
            &&& asked(o, value_replies(answers)) == managers(f.blocks, 0).map_values(
                |m: PyObjectRef| told_of_end(m),
            )
            &&& hear(o, value_replies(answers)) is Some
            &&& r.1 == StepView::Finished(Ok(Some(ExecutionResult::Return(value_at(f, 0)))))
            &&& same_activation(f, r.0)
            &&& r.0.lasti == f.lasti
            &&& r.0.blocks.len() == 0
            &&& r.0.stack == lowered_by(f.blocks, 0, f.stack.drop_last())
            &&& f.blocks.len() == 0 ==> r.0.stack == f.stack.drop_last()
            &&& f.blocks.len() > 0 && encloses(without(f, 1), 0) ==> r.0.stack == f.stack.take(
                f.blocks[0].level as int,
            )
        }),
{
    if f.stack.len() >= 1 && answers.len() == managers(f.blocks, 0).len() {
        let g = f.drop(1);
        assert(g.stack == f.stack.drop_last());
        return_tells_each_manager(g, value_at(f, 0), answers);
        lemma_told_of_end(managers(f.blocks, 0));
        lemma_pop_blocks_to(g, 0);
        lemma_lowered_by(g, 0);
        if f.blocks.len() > 0 && encloses(without(f, 1), 0) {
            leaving_block_restores_stack(g, 0);
            assert(g.stack.take(f.blocks[0].level as int) == f.stack.take(
                f.blocks[0].level as int,
            ));
        }
    }
}

} // verus!
