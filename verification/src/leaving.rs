//! What leaving blocks comes to when context managers are met on the way.

use crate::bytecode::Location;
use crate::continuation::{ExecutionResult, LoopJump, StepView};
use crate::conversation::{asked, hear, lemma_hear_first, value_replies};
use crate::frame::{Block, FrameView};
use crate::model;
use crate::model::Halt;
use crate::object::PyObjectRef;
use crate::request::{ReplyView, RequestView, Service};
use crate::run;
use crate::run::{Handling, UnwoundView};
use crate::unwind::{lemma_innermost, lemma_pop_blocks_to, lemma_pop_blocks_twice};
use vstd::prelude::*;

verus! {

/// The index of the innermost loop, or -1.
pub open spec fn loop_index(blocks: Seq<Block>) -> int
    decreases blocks.len(),
{
    if blocks.len() == 0 {
        -1
    } else if blocks.last().typ is Loop {
        blocks.len() - 1
    } else {
        loop_index(blocks.drop_last())
    }
}

/// The index of the innermost handler, or -1.
pub open spec fn handler_index(blocks: Seq<Block>) -> int
    decreases blocks.len(),
{
    if blocks.len() == 0 {
        -1
    } else if blocks.last().typ is TryExcept {
        blocks.len() - 1
    } else {
        handler_index(blocks.drop_last())
    }
}

/// The context managers of all but the outermost `count` blocks, the innermost first.
pub open spec fn managers(blocks: Seq<Block>, count: int) -> Seq<PyObjectRef>
    decreases blocks.len(),
{
    if blocks.len() == 0 || blocks.len() <= count {
        seq![]
    } else if blocks.last().typ is With {
        seq![blocks.last().typ->context_manager] + managers(blocks.drop_last(), count)
    } else {
        managers(blocks.drop_last(), count)
    }
}

/// The context managers are told that their blocks are left.
pub open spec fn exit_requests(
    context_managers: Seq<PyObjectRef>,
    exc: Option<PyObjectRef>,
) -> Seq<RequestView> {
    context_managers.map_values(
        |context_manager: PyObjectRef| model::exit_request(context_manager, exc),
    )
}

/// Blocks that bring nothing to a halt and are no context managers do not count.
proof fn lemma_managers_skip(blocks: Seq<Block>, count: int, i: int)
    requires
        0 <= count <= i + 1 <= blocks.len(),
        forall|j: int| i < j < blocks.len() ==> !((#[trigger] blocks[j]).typ is With),
    ensures
        managers(blocks, count) == managers(blocks.take(i + 1), count),
    decreases blocks.len(),
{
    if blocks.len() == i + 1 {
        assert(blocks.take(i + 1) == blocks);
    } else {
        assert(!(blocks[blocks.len() - 1].typ is With));
        assert forall|j: int| i < j < blocks.len() - 1 implies !((
        #[trigger] blocks.drop_last()[j]).typ is With) by {
            assert(blocks.drop_last()[j] == blocks[j]);
        }
        lemma_managers_skip(blocks.drop_last(), count, i);
        assert(blocks.drop_last().take(i + 1) == blocks.take(i + 1));
    }
}

/// The managers start with that of the block `i`, if the blocks inside it have none.
proof fn lemma_managers_first(blocks: Seq<Block>, count: int, i: int)
    requires
        0 <= count <= i < blocks.len(),
        blocks[i].typ is With,
        forall|j: int| i < j < blocks.len() ==> !((#[trigger] blocks[j]).typ is With),
    ensures
        managers(blocks, count) == seq![blocks[i].typ->context_manager] + managers(
            blocks.take(i),
            count,
        ),
{
    lemma_managers_skip(blocks, count, i);
    assert(blocks.take(i + 1).drop_last() == blocks.take(i));
}

proof fn lemma_exit_requests(
    first: PyObjectRef,
    rest: Seq<PyObjectRef>,
    exc: Option<PyObjectRef>,
)
    ensures
        exit_requests(seq![first] + rest, exc) == seq![model::exit_request(first, exc)]
            + exit_requests(rest, exc),
{
}

/// Returning tells every context manager, the innermost first, that its block is left without an
/// exception, leaves all blocks, and returns the value.
pub proof fn return_tells_each_manager(
    f: FrameView,
    value: PyObjectRef,
    answers: Seq<PyObjectRef>,
)
    requires
        answers.len() == managers(f.blocks, 0).len(),
    ensures
        hear(model::unwind_blocks(f, value), value_replies(answers)) == Some(
            (
                f.pop_blocks_to(0),
                StepView::Finished(Ok(Some(ExecutionResult::Return(value)))),
            ),
        ),
        asked(model::unwind_blocks(f, value), value_replies(answers)) == exit_requests(
            managers(f.blocks, 0),
            None,
        ),
    decreases f.blocks.len(),
{
    let i = model::innermost(f.blocks, Halt::Return);
    lemma_innermost(f.blocks, Halt::Return);
    if i < 0 {
        lemma_managers_skip(f.blocks, 0, -1);
        assert(exit_requests(managers(f.blocks, 0), None) == Seq::<RequestView>::empty());
    } else {
        let o = model::unwind_blocks(f, value);
        let g = f.pop_blocks_to(i);
        lemma_pop_blocks_to(f, i);
        lemma_managers_first(f.blocks, 0, i);
        let rest = managers(f.blocks.take(i), 0);
        assert(managers(f.blocks, 0).len() == 1 + rest.len());
        assert(value_replies(answers) == seq![ReplyView::Value(answers.first())] + value_replies(
            answers.drop_first(),
        ));
        lemma_hear_first(
            o,
            ReplyView::Value(answers.first()),
            value_replies(answers.drop_first()),
        );
        return_tells_each_manager(g, value, answers.drop_first());
        lemma_pop_blocks_twice(f, i, 0);
        lemma_exit_requests(f.blocks[i].typ->context_manager, rest, None);
    }
}

/// The frame after a jump out of the body of the innermost loop: the blocks in the loop are left,
/// with `break` that of the loop, too.
pub open spec fn out_of_loop_body(f: FrameView, jump: LoopJump) -> FrameView {
    let l = loop_index(f.blocks);
    let g = f.pop_blocks_to(
        if jump == LoopJump::Break {
            l
        } else {
            l + 1
        },
    );
    g.jump(model::loop_label(f.blocks[l].typ, jump))
}

proof fn lemma_loop_index(blocks: Seq<Block>)
    ensures
        -1 <= loop_index(blocks) < blocks.len(),
        loop_index(blocks) >= 0 ==> blocks[loop_index(blocks)].typ is Loop,
        loop_index(blocks) <= model::innermost(blocks, Halt::Jump),
        ({
            let i = model::innermost(blocks, Halt::Jump);
            i >= 0 && blocks[i].typ is Loop ==> loop_index(blocks) == i
        }),
        ({
            let i = model::innermost(blocks, Halt::Jump);
            i >= 0 && blocks[i].typ is With ==> loop_index(blocks) == loop_index(blocks.take(i))
        }),
    decreases blocks.len(),
{
    if blocks.len() > 0 {
        lemma_loop_index(blocks.drop_last());
        let i = model::innermost(blocks, Halt::Jump);
        if blocks.last().typ is TryExcept {
            lemma_innermost(blocks.drop_last(), Halt::Jump);
            if i >= 0 {
                assert(blocks.drop_last().take(i) == blocks.take(i));
                assert(blocks.drop_last()[i] == blocks[i]);
            }
        } else {
            assert(blocks.take(i) == blocks.drop_last());
        }
    }
}

/// A jump out of a loop body tells the context managers in the loop, the innermost first, that
/// their blocks are left without an exception, and comes to where it says.
pub proof fn loop_jump_tells_each_manager(
    f: FrameView,
    jump: LoopJump,
    answers: Seq<PyObjectRef>,
)
    requires
        loop_index(f.blocks) >= 0,
        f.has_label(model::loop_label(f.blocks[loop_index(f.blocks)].typ, jump)),
        answers.len() == managers(f.blocks, loop_index(f.blocks) + 1).len(),
    ensures
        model::can_unwind_loop(f, jump),
        hear(model::unwind_loop(f, jump), value_replies(answers)) == Some(
            model::go_on(out_of_loop_body(f, jump)),
        ),
        asked(model::unwind_loop(f, jump), value_replies(answers)) == exit_requests(
            managers(f.blocks, loop_index(f.blocks) + 1),
            None,
        ),
    decreases f.blocks.len(),
{
    let l = loop_index(f.blocks);
    let i = model::innermost(f.blocks, Halt::Jump);
    lemma_loop_index(f.blocks);
    lemma_innermost(f.blocks, Halt::Jump);
    lemma_pop_blocks_to(f, i + 1);
    let g = f.pop_blocks_to(i + 1);
    assert(g.pop_block() == g.pop_blocks_to(i)) by {
        assert(g.pop_blocks_to(i) == g.pop_block().pop_blocks_to(i));
    }
    lemma_pop_blocks_twice(f, i + 1, i);
    if f.blocks[i].typ is Loop {
        lemma_managers_skip(f.blocks, l + 1, l);
        assert(managers(f.blocks.take(l + 1), l + 1) == Seq::<PyObjectRef>::empty());
        assert(exit_requests(managers(f.blocks, l + 1), None) == Seq::<RequestView>::empty());
    } else {
        let o = model::unwind_loop(f, jump);
        let h = f.pop_blocks_to(i);
        lemma_pop_blocks_to(f, i);
        assert(f.blocks[i].typ is With);
        lemma_managers_first(f.blocks, l + 1, i);
        let rest = managers(f.blocks.take(i), l + 1);
        assert(managers(f.blocks, l + 1).len() == 1 + rest.len());
        assert(value_replies(answers) == seq![ReplyView::Value(answers.first())] + value_replies(
            answers.drop_first(),
        ));
        loop_jump_tells_each_manager(h, jump, answers.drop_first());
        lemma_hear_first(
            o,
            ReplyView::Value(answers.first()),
            value_replies(answers.drop_first()),
        );
        lemma_pop_blocks_twice(
            f,
            i,
            if jump == LoopJump::Break {
                l
            } else {
                l + 1
            },
        );
        lemma_exit_requests(f.blocks[i].typ->context_manager, rest, None);
    }
}

// Exceptions.

/// What dealing with an exception comes to after it got the replies, one after the other; `None`
/// where it cannot go on with one of them.
pub open spec fn hear_out(
    f: FrameView,
    unwound: UnwoundView,
    lineno: Location,
    replies: Seq<ReplyView>,
) -> Option<(FrameView, UnwoundView)>
    decreases replies.len(),
{
    if replies.len() == 0 {
        Some((f, unwound))
    } else if unwound is Ask && run::can_handle(f, unwound->handling, replies.first()) {
        let (g, next) = run::handle(f, lineno, unwound->handling, replies.first());
        hear_out(g, next, lineno, replies.drop_first())
    } else {
        None
    }
}

/// The requests that these replies are to.
pub open spec fn asked_out(
    f: FrameView,
    unwound: UnwoundView,
    lineno: Location,
    replies: Seq<ReplyView>,
) -> Seq<RequestView>
    decreases replies.len(),
{
    if replies.len() == 0 {
        seq![]
    } else {
        let (g, next) = run::handle(f, lineno, unwound->handling, replies.first());
        seq![unwound->request] + asked_out(g, next, lineno, replies.drop_first())
    }
}

/// For each context manager: its answer, and that this is a false value.
pub open spec fn refusals(actions: Seq<PyObjectRef>) -> Seq<ReplyView>
    decreases actions.len(),
{
    if actions.len() == 0 {
        seq![]
    } else {
        seq![ReplyView::Value(actions.first()), ReplyView::Truth(false)] + refusals(
            actions.drop_first(),
        )
    }
}

/// For each context manager: it is told of the exception, and the truth of its answer is asked
/// for.
pub open spec fn refusal_requests(
    context_managers: Seq<PyObjectRef>,
    exc: PyObjectRef,
    actions: Seq<PyObjectRef>,
) -> Seq<RequestView>
    decreases actions.len(),
{
    if actions.len() == 0 {
        seq![]
    } else {
        seq![
            model::exit_request(context_managers.first(), Some(exc)),
            RequestView::Service(Service::BoolVal { obj: actions.first() }),
        ] + refusal_requests(context_managers.drop_first(), exc, actions.drop_first())
    }
}

/// What an exception comes to that no context manager deals with: the innermost handler takes it,
/// or it leaves the frame.
pub open spec fn taken_by_handler(f: FrameView, exc: PyObjectRef) -> (FrameView, UnwoundView) {
    let h = handler_index(f.blocks);
    if h < 0 {
        (f.pop_blocks_to(0), UnwoundView::Escaped(exc))
    } else {
        (
            f.pop_blocks_to(h).push(exc).jump(f.blocks[h].typ->handler),
            UnwoundView::Handled,
        )
    }
}

proof fn lemma_handler_index(blocks: Seq<Block>)
    ensures
        -1 <= handler_index(blocks) < blocks.len(),
        handler_index(blocks) >= 0 ==> blocks[handler_index(blocks)].typ is TryExcept,
        handler_index(blocks) <= model::innermost(blocks, Halt::Exception),
        ({
            let i = model::innermost(blocks, Halt::Exception);
            i >= 0 && blocks[i].typ is TryExcept ==> handler_index(blocks) == i
        }),
        ({
            let i = model::innermost(blocks, Halt::Exception);
            i >= 0 && blocks[i].typ is With ==> handler_index(blocks) == handler_index(
                blocks.take(i),
            )
        }),
    decreases blocks.len(),
{
    if blocks.len() > 0 {
        lemma_handler_index(blocks.drop_last());
        let i = model::innermost(blocks, Halt::Exception);
        if blocks.last().typ is Loop {
            lemma_innermost(blocks.drop_last(), Halt::Exception);
            if i >= 0 {
                assert(blocks.drop_last().take(i) == blocks.take(i));
                assert(blocks.drop_last()[i] == blocks[i]);
            }
        } else {
            assert(blocks.take(i) == blocks.drop_last());
        }
    }
}

/// An exception passes the context managers that do not deal with it, the innermost first, each of
/// which is told of it, and comes to the innermost handler, or leaves the frame if there is none.
pub proof fn exception_passes_managers(
    f: FrameView,
    lineno: Location,
    exc: PyObjectRef,
    actions: Seq<PyObjectRef>,
)
    requires
        handler_index(f.blocks) >= 0 ==> f.has_label(
            f.blocks[handler_index(f.blocks)].typ->handler,
        ),
        actions.len() == managers(f.blocks, handler_index(f.blocks) + 1).len(),
    ensures
        run::can_unwind_exception(f),
        ({
            let (g, unwound) = run::unwind_exception(f, exc);
            &&& hear_out(g, unwound, lineno, refusals(actions)) == Some(taken_by_handler(f, exc))
            &&& asked_out(g, unwound, lineno, refusals(actions)) == refusal_requests(
                managers(f.blocks, handler_index(f.blocks) + 1),
                exc,
                actions,
            )
        }),
    decreases f.blocks.len(),
{
    let h = handler_index(f.blocks);
    let i = model::innermost(f.blocks, Halt::Exception);
    let (g, unwound) = run::unwind_exception(f, exc);
    lemma_handler_index(f.blocks);
    lemma_innermost(f.blocks, Halt::Exception);
    if i < 0 || f.blocks[i].typ is TryExcept {
        lemma_managers_skip(f.blocks, h + 1, h);
    } else {
        lemma_pop_blocks_to(f, i);
        assert(f.blocks[i].typ is With);
        lemma_managers_first(f.blocks, h + 1, i);
        let manager = f.blocks[i].typ->context_manager;
        let end = f.blocks[i].typ->With_end;
        let rest = managers(f.blocks.take(i), h + 1);
        assert((seq![manager] + rest).drop_first() == rest);
        let action = ReplyView::Value(actions.first());
        let after = refusals(actions.drop_first());
        exception_passes_managers(g, lineno, exc, actions.drop_first());
        assert(refusals(actions).first() == action);
        assert(refusals(actions).drop_first() == seq![ReplyView::Truth(false)] + after);
        assert((seq![ReplyView::Truth(false)] + after).drop_first() == after);
        let second = UnwoundView::Ask {
            request: RequestView::Service(Service::BoolVal { obj: actions.first() }),
            handling: Handling::Verdict { end, exc },
        };
        let (g1, next) = run::unwind_exception(g, exc);
        assert(run::handle(g, lineno, unwound->handling, action) == (g, second));
        assert(run::handle(g, lineno, second->handling, ReplyView::Truth(false)) == (g1, next));
        assert(hear_out(g, second, lineno, seq![ReplyView::Truth(false)] + after) == hear_out(
            g1,
            next,
            lineno,
            after,
        ));
        assert(asked_out(g, second, lineno, seq![ReplyView::Truth(false)] + after) == seq![
            second->request,
        ] + asked_out(g1, next, lineno, after));
        lemma_pop_blocks_twice(
            f,
            i,
            if h < 0 {
                0
            } else {
                h
            },
        );
        assert(asked_out(g, unwound, lineno, refusals(actions)) == refusal_requests(
            managers(f.blocks, h + 1),
            exc,
            actions,
        ));
    }
}

} // verus!
