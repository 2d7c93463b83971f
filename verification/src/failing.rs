//! What becomes of a request that fails.

use crate::bytecode::Instruction;
use crate::continuation::{After, ContinuationView, StepView};
use crate::conversation::{can_hear, hear};
use crate::effects::{answered, asks, leads, raised, without};
use crate::frame::FrameView;
use crate::laws::{execute_takes_answers, fits, resume_takes_answers};
use crate::model;
use crate::model::Outcome;
use crate::object::PyObjectRef;
use crate::request::{Method, Query, ReplyView, RequestView};
use vstd::prelude::*;

verus! {

/// Whether an object is asked if it contains another.
pub open spec fn asks_membership(request: RequestView) -> bool {
    request matches RequestView::CallMethod { method, .. } && method == Method::Contains
}

/// Whether the instruction leaves the body of a loop.
pub open spec fn leaves_loop_body(instruction: Instruction) -> bool {
    instruction is Break || instruction is Continue
}

/// What an instruction may wait for.
spec fn waits_as(instruction: Instruction, o: Outcome) -> bool {
    o.1 matches StepView::Ask { request, resume } ==> match resume {
        ContinuationView::After(After::Advance { .. }) => instruction is ForIter && o.0.stack.len()
            >= 1 && !asks_membership(request),
        ContinuationView::After(After::In { haystack }) => {
            &&& instruction is CompareOperation
            &&& asks_membership(request)
            &&& request->CallMethod_obj == haystack
        },
        ContinuationView::After(After::NotIn { haystack }) => {
            &&& instruction is CompareOperation
            &&& asks_membership(request)
            &&& request->CallMethod_obj == haystack
        },
        ContinuationView::After(After::LoopExit { .. }) => leaves_loop_body(instruction)
            && !asks_membership(request),
        _ => !leaves_loop_body(instruction) && !(instruction is ForIter) && !asks_membership(
            request,
        ),
    }
}

#[verifier::rlimit(40)]
proof fn lemma_execute_waits(f: FrameView, instruction: Instruction, directory: String)
    requires
        model::can_execute(f, instruction),
    ensures
        waits_as(instruction, model::execute(f, instruction, directory)),
{
    match instruction {
        Instruction::BinaryOperation { op, inplace } => {
            assert(waits_as(instruction, model::binop(f, op, inplace)));
        },
        Instruction::CompareOperation { op } => {
            assert(waits_as(instruction, model::compare(f, op)));
        },
        _ => {},
    }
}

#[verifier::rlimit(40)]
proof fn lemma_resume_waits(o: Outcome, instruction: Instruction, reply: ReplyView)
    requires
        waits_as(instruction, o),
        can_hear(o, reply),
    ensures
        waits_as(instruction, model::resume(o.0, o.1->resume, reply)),
{
}

proof fn lemma_hear_waits(
    o: Outcome,
    instruction: Instruction,
    replies: Seq<ReplyView>,
    last: ReplyView,
)
    requires
        waits_as(instruction, o),
        fits(o.1, last),
        hear(o, replies) is Some,
    ensures
        waits_as(instruction, hear(o, replies)->0),
        fits((hear(o, replies)->0).1, last),
    decreases replies.len(),
{
    if replies.len() > 0 {
        lemma_resume_waits(o, instruction, replies.first());
        resume_takes_answers(o.0, o.1->resume, replies.first(), last);
        lemma_hear_waits(
            model::resume(o.0, o.1->resume, replies.first()),
            instruction,
            replies.drop_first(),
            last,
        );
    }
}

/// Whatever an instruction has asked and been answered so far: if what it asks now can fail and
/// does, exactly that failure is raised, in the frame as it was when the request was made. There
/// are three exceptions. A loop over an iterator drops the iterator first. Where an object was
/// asked if it contains another, the name of its type is asked for, for a `TypeError`. And on the
/// way out of a loop body a context manager must not fail.
pub proof fn failures_are_raised(
    f: FrameView,
    instruction: Instruction,
    replies: Seq<ReplyView>,
    exc: PyObjectRef,
    directory: String,
)
    requires
        model::can_execute(f, instruction),
        hear(model::execute(f, instruction, directory), replies) is Some,
        ({
            let o = hear(model::execute(f, instruction, directory), replies)->0;
            o.1 is Ask && (o.1->request).answered_by(ReplyView::Failed(exc))
        }),
    ensures
        ({
            let o = hear(model::execute(f, instruction, directory), replies)->0;
            let failed = ReplyView::Failed(exc);
            if leaves_loop_body(instruction) {
                !can_hear(o, failed)
            } else if instruction is ForIter {
                leads(o, failed, raised(without(o.0, 1), exc))
            } else if asks_membership(o.1->request) {
                &&& can_hear(o, failed)
                &&& asks(
                    answered(o, failed),
                    o.0,
                    RequestView::Query(Query::TypeName { obj: o.1->request->CallMethod_obj }),
                )
            } else {
                leads(o, failed, raised(o.0, exc))
            }
        }),
{
    let o = model::execute(f, instruction, directory);
    let failed = ReplyView::Failed(exc);
    lemma_execute_waits(f, instruction, directory);
    execute_takes_answers(f, instruction, directory, failed);
    lemma_hear_waits(o, instruction, replies, failed);
}

} // verus!
