//! How runs go: one instruction after another, with the requests that they make and the exceptions
//! that they raise.

use crate::bytecode::{Instruction, Label, Location};
use crate::continuation::{ContinuationView, StepView};
use crate::effects::{moved, place, raised};
use crate::frame::{Block, FrameView};
use crate::leaving::{hear_out, managers, refusals};
use crate::model;
use crate::model::Outcome;
use crate::object::PyObjectRef;
use crate::request::{Class, Query, ReplyView, RequestView, Service};
use crate::run;
use crate::run::{ActivityView, Handling, SuspendedView, TurnView, UnwoundView};
use crate::statements::{handler_runs_with_the_exception, rests_on, same_activation};
use vstd::prelude::*;

verus! {

/// The instruction that a frame starts is the one at its place, in the frame that has moved on to
/// the place behind it.
pub proof fn instruction_is_the_one_at_its_place(f: FrameView, directory: String)
    ensures
        ({
            let known = 0 <= f.lasti < f.code.instructions@.len();
            let instruction = f.code.instructions@[f.lasti];
            let g = moved(f, f.lasti + 1);
            &&& model::can_start(f) <==> known && model::can_execute(g, instruction)
            &&& model::start(f, directory) == model::execute(g, instruction, directory)
            &&& run::can_run(f) <==> model::can_start(f) && f.lasti < f.code.locations@.len()
        }),
{
}

/// Whether a turn is what an instruction that came from `lineno` leads to: the run goes on for at
/// most `budget` instructions, or ends with a result, or asks what the instruction asks; and for an
/// exception it asks first if that is one.
pub open spec fn comes_to(
    o: Outcome,
    lineno: Location,
    budget: nat,
    directory: String,
    turn: (FrameView, TurnView),
) -> bool {
    match o.1 {
        StepView::Finished(Ok(None)) => turn == run::run(o.0, budget, directory),
        StepView::Finished(Ok(Some(result))) => turn == (o.0, TurnView::Done(Ok(result))),
        StepView::Finished(Err(exc)) => turn == (
            o.0,
            TurnView::Ask {
                request: RequestView::Query(
                    Query::IsInstance { obj: exc, class: Class::BaseException },
                ),
                suspended: SuspendedView {
                    lineno,
                    activity: ActivityView::Handling(Handling::Check { exc }),
                },
            },
        ),
        StepView::Ask { request, resume } => turn == (
            o.0,
            TurnView::Ask {
                request,
                suspended: SuspendedView { lineno, activity: ActivityView::Executing(resume) },
            },
        ),
    }
}

/// A run takes one instruction after another as long as its budget lasts. It remembers where the
/// instruction came from that it is at, and it is stuck where an instruction cannot start.
pub proof fn run_takes_instructions_in_turn(f: FrameView, budget: nat, directory: String)
    ensures
        run::run(f, 0, directory) == (f, TurnView::Paused),
        budget > 0 && !run::can_run(f) ==> run::run(f, budget, directory) == (f, TurnView::Stuck),
        budget > 0 && run::can_run(f) ==> comes_to(
            model::start(f, directory),
            f.code.locations@[f.lasti],
            (budget - 1) as nat,
            directory,
            run::run(f, budget, directory),
        ),
{
}

/// A run that waits for a reply to what an instruction asked goes on with what the instruction
/// comes to with the reply, and is stuck if the instruction cannot go on with it.
pub proof fn run_goes_on_with_its_instruction(
    f: FrameView,
    lineno: Location,
    resume: ContinuationView,
    reply: ReplyView,
    budget: nat,
    directory: String,
)
    ensures
        ({
            let suspended = SuspendedView { lineno, activity: ActivityView::Executing(resume) };
            let turn = run::resume(f, suspended, reply, budget, directory);
            if model::can_resume(f, resume, reply) {
                comes_to(model::resume(f, resume, reply), lineno, budget, directory, turn)
            } else {
                turn == (f, TurnView::Stuck)
            }
        }),
{
}

/// A run that deals with an exception goes on behind it if that is dealt with, ends with an
/// exception that leaves the frame, or asks what is to be asked; it is stuck if it cannot go on
/// with the reply.
pub proof fn run_goes_on_with_its_exception(
    f: FrameView,
    lineno: Location,
    handling: Handling,
    reply: ReplyView,
    budget: nat,
    directory: String,
)
    ensures
        ({
            let suspended = SuspendedView { lineno, activity: ActivityView::Handling(handling) };
            let turn = run::resume(f, suspended, reply, budget, directory);
            let (g, unwound) = run::handle(f, lineno, handling, reply);
            if run::can_handle(f, handling, reply) {
                match unwound {
                    UnwoundView::Handled => turn == run::run(g, budget, directory),
                    UnwoundView::Escaped(exc) => turn == (g, TurnView::Done(Err(exc))),
                    UnwoundView::Ask { request, handling } => turn == (
                        g,
                        TurnView::Ask {
                            request,
                            suspended: SuspendedView {
                                lineno,
                                activity: ActivityView::Handling(handling),
                            },
                        },
                    ),
                }
            } else {
                turn == (f, TurnView::Stuck)
            }
        }),
{
}

/// What was raised must be an exception, and must have a traceback that takes an entry. The entry
/// names the source file, the row of the instruction and the object that the code is of. The frame
/// stays as it is until the entry is there.
pub proof fn exception_gets_its_traceback_entry(
    f: FrameView,
    lineno: Location,
    exc: PyObjectRef,
    traceback: PyObjectRef,
    position: PyObjectRef,
    done: PyObjectRef,
    failure: PyObjectRef,
)
    ensures
        ({
            let failed = ReplyView::Failed(failure);
            let first = Handling::Check { exc };
            let (f1, u1) = run::handle(f, lineno, first, ReplyView::Truth(true));
            let (f2, u2) = run::handle(f1, lineno, u1->handling, ReplyView::Value(traceback));
            let (f3, u3) = run::handle(f2, lineno, u2->handling, ReplyView::Value(position));
            &&& run::can_handle(f, first, ReplyView::Truth(true))
            &&& !run::can_handle(f, first, ReplyView::Truth(false))
            &&& f1 == f
            &&& u1 is Ask
            &&& u1->request == RequestView::Service(Service::GetTraceback { exc })
            &&& run::can_handle(f, u1->handling, ReplyView::Value(traceback))
            &&& !run::can_handle(f, u1->handling, failed)
            &&& f2 == f
            &&& u2 is Ask
            &&& u2->request == RequestView::Service(
                Service::NewPosition {
                    filename: f.code.source_path,
                    row: lineno.row,
                    name: f.code.obj_name,
                },
            )
            &&& run::can_handle(f, u2->handling, ReplyView::Value(position))
            &&& f3 == f
            &&& u3 is Ask
            &&& u3->request == RequestView::Service(
                Service::ListAppend { list: traceback, item: position },
            )
            &&& !run::can_handle(f, u3->handling, failed)
            &&& run::can_handle(f, u3->handling, ReplyView::Value(done))
                <==> run::can_unwind_exception(f)
            &&& run::handle(f, lineno, u3->handling, ReplyView::Value(done))
                == run::unwind_exception(f, exc)
        }),
{
}

/// What a run comes to after it got the replies, one after the other; `None` where it asks for
/// none.
pub open spec fn hear_turns(
    turn: (FrameView, TurnView),
    replies: Seq<ReplyView>,
    budget: nat,
    directory: String,
) -> Option<(FrameView, TurnView)>
    decreases replies.len(),
{
    if replies.len() == 0 {
        Some(turn)
    } else if turn.1 is Ask {
        hear_turns(
            run::resume(turn.0, turn.1->suspended, replies.first(), budget, directory),
            replies.drop_first(),
            budget,
            directory,
        )
    } else {
        None
    }
}

/// An instruction in the body of a `try` statement, be it inside loops of that body, comes to an
/// exception with a reply: once the exception has its traceback entry, the run goes on at the
/// handler, with the exception on top of the stack that the statement was set up with.
pub proof fn raised_exception_runs_the_handler(
    f: FrameView,
    handler: Label,
    h: FrameView,
    lineno: Location,
    resume: ContinuationView,
    reply: ReplyView,
    g: FrameView,
    inner: Seq<Block>,
    exc: PyObjectRef,
    traceback: PyObjectRef,
    position: PyObjectRef,
    done: PyObjectRef,
    budget: nat,
    directory: String,
)
    requires
        f.stack.len() <= usize::MAX,
        model::can_resume(h, resume, reply),
        model::resume(h, resume, reply) == raised(g, exc),
        same_activation(f, g),
        g.blocks == model::execute(
            f,
            Instruction::SetupExcept { handler },
            directory,
        ).0.blocks + inner,
        forall|j: int| 0 <= j < inner.len() ==> (#[trigger] inner[j]).typ is Loop,
        rests_on(f.stack, g, inner),
        f.code.label_map@.contains_key(handler),
    ensures
        hear_turns(
            run::resume(
                h,
                SuspendedView { lineno, activity: ActivityView::Executing(resume) },
                reply,
                budget,
                directory,
            ),
            seq![
                ReplyView::Truth(true),
                ReplyView::Value(traceback),
                ReplyView::Value(position),
                ReplyView::Value(done),
            ],
            budget,
            directory,
        ) == Some(
            run::run(
                (FrameView {
                    code: f.code,
                    stack: f.stack.push(exc),
                    blocks: f.blocks,
                    locals: f.locals,
                    lasti: place(f, handler),
                }),
                budget,
                directory,
            ),
        ),
{
    lemma_no_managers(inner);
    handler_runs_with_the_exception(f, handler, g, inner, lineno, exc, seq![], directory);
    let (r, unwound) = run::unwind_exception(g, exc);
    assert(refusals(seq![]) == Seq::<ReplyView>::empty());
    assert(hear_out(r, unwound, lineno, Seq::empty()) == Some((r, unwound)));
    assert(r == (FrameView {
        code: f.code,
        stack: f.stack.push(exc),
        blocks: f.blocks,
        locals: f.locals,
        lasti: place(f, handler),
    }));
    let suspended = SuspendedView { lineno, activity: ActivityView::Executing(resume) };
    let t = run::resume(h, suspended, reply, budget, directory);
    let replies = seq![
        ReplyView::Truth(true),
        ReplyView::Value(traceback),
        ReplyView::Value(position),
        ReplyView::Value(done),
    ];
    reveal_with_fuel(hear_turns, 5);
    let rest1 = replies.drop_first();
    let rest2 = rest1.drop_first();
    let rest3 = rest2.drop_first();
    assert(rest1.first() == ReplyView::Value(traceback));
    assert(rest2.first() == ReplyView::Value(position));
    assert(rest3.first() == ReplyView::Value(done));
    assert(rest3.drop_first() == Seq::<ReplyView>::empty());
    let t1 = run::resume(t.0, t.1->suspended, replies.first(), budget, directory);
    let t2 = run::resume(t1.0, t1.1->suspended, rest1.first(), budget, directory);
    let t3 = run::resume(t2.0, t2.1->suspended, rest2.first(), budget, directory);
    let t4 = run::resume(t3.0, t3.1->suspended, rest3.first(), budget, directory);
    assert(t4 == run::run(r, budget, directory));
    assert(hear_turns(t4, rest3.drop_first(), budget, directory) == Some(t4));
    assert(hear_turns(t3, rest3, budget, directory) == Some(t4));
    assert(hear_turns(t2, rest2, budget, directory) == Some(t4));
    assert(hear_turns(t1, rest1, budget, directory) == Some(t4));
}

proof fn lemma_no_managers(blocks: Seq<Block>)
    requires
        forall|j: int| 0 <= j < blocks.len() ==> (#[trigger] blocks[j]).typ is Loop,
    ensures
        managers(blocks, 0).len() == 0,
    decreases blocks.len(),
{
    if blocks.len() > 0 {
        assert(blocks[blocks.len() - 1].typ is Loop);
        assert forall|j: int| 0 <= j < blocks.len() - 1 implies (
        #[trigger] blocks.drop_last()[j]).typ is Loop by {
            assert(blocks.drop_last()[j] == blocks[j]);
        }
        lemma_no_managers(blocks.drop_last());
    }
}

} // verus!
