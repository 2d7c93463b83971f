//! Running a frame: instructions follow one another until the frame returns, yields or lets an
//! exception escape, or until the virtual machine is needed.

use crate::bytecode::{Instruction, Label, Location};
use crate::continuation::{Continuation, ContinuationView, ExecutionResult, Step, StepView};
use crate::frame::{BlockType, Frame, FrameView};
use crate::laws::{
    directory_is_for_imports, execute_keeps_setting, handle_asks_no_import, handle_keeps_setting,
    resume_asks_no_import, resume_keeps_setting,
};
use crate::model;
use crate::model::Halt;
use crate::object::PyObjectRef;
use crate::request::{Class, Query, Reply, ReplyView, Request, RequestView, Service};
use crate::text::directory_of;
use crate::unwind::{lemma_innermost, lemma_pop_blocks_to};
use vstd::prelude::*;

verus! {

/// What is waited for while an exception is dealt with.
#[derive(Debug)]
pub enum Handling {
    /// Whether it is an exception at all.
    Check { exc: PyObjectRef },
    /// Its traceback.
    Traceback { exc: PyObjectRef },
    /// The new entry of the traceback.
    Position { exc: PyObjectRef, traceback: PyObjectRef },
    /// The entry being in the traceback.
    Append { exc: PyObjectRef },
    /// The answer of a context manager.
    Exit { end: Label, exc: PyObjectRef },
    /// Whether that answer means that the exception is dealt with.
    Verdict { end: Label, exc: PyObjectRef },
}

/// What dealing with an exception comes to.
#[derive(Debug)]
pub enum Unwound {
    /// The frame goes on.
    Handled,
    /// An exception leaves the frame.
    Escaped(PyObjectRef),
    /// It goes on with the reply to `request`.
    Ask { request: Request, handling: Handling },
}

/// An `Unwound` as contracts see it.
#[verifier::ext_equal]
pub enum UnwoundView {
    Handled,
    Escaped(PyObjectRef),
    Ask { request: RequestView, handling: Handling },
}

impl View for Unwound {
    type V = UnwoundView;

    open spec fn view(&self) -> UnwoundView {
        match *self {
            Unwound::Handled => UnwoundView::Handled,
            Unwound::Escaped(exc) => UnwoundView::Escaped(exc),
            Unwound::Ask { request, handling } => UnwoundView::Ask { request: request@, handling },
        }
    }
}

/// Whether leaving blocks because of an exception comes to a place where the frame can go on.
pub open spec fn can_unwind_exception(f: FrameView) -> bool {
    let i = model::innermost(f.blocks, Halt::Exception);
    i >= 0 && f.blocks[i].typ is TryExcept ==> f.has_label(f.blocks[i].typ->handler)
}

/// Because of an exception blocks are left up to a handler, which takes the exception, or to a
/// context manager, which is told of it, or altogether.
pub open spec fn unwind_exception(f: FrameView, exc: PyObjectRef) -> (FrameView, UnwoundView) {
    let i = model::innermost(f.blocks, Halt::Exception);
    if i < 0 {
        (f.pop_blocks_to(0), UnwoundView::Escaped(exc))
    } else {
        let g = f.pop_blocks_to(i);
        match f.blocks[i].typ {
            BlockType::With { end, context_manager } => (
                g,
                UnwoundView::Ask {
                    request: model::exit_request(context_manager, Some(exc)),
                    handling: Handling::Exit { end, exc },
                },
            ),
            typ => (g.push(exc).jump(typ->handler), UnwoundView::Handled),
        }
    }
}

impl Handling {
    /// Whether `reply` is of the kind that is waited for.
    pub open spec fn takes(self, reply: ReplyView) -> bool {
        match self {
            Handling::Check { .. } => reply is Truth,
            Handling::Position { .. } => reply is Value,
            Handling::Traceback { .. } | Handling::Append { .. } | Handling::Exit { .. } => {
                reply is Value || reply is Failed
            },
            Handling::Verdict { .. } => reply is Truth || reply is Failed,
        }
    }
}

/// Whether the reply is one that dealing with the exception can go on with: what is raised is an
/// exception, it has a traceback that takes an entry, and where the frame goes on there is a
/// label.
pub open spec fn can_handle(f: FrameView, handling: Handling, reply: ReplyView) -> bool {
    &&& handling.takes(reply)
    &&& match handling {
        Handling::Check { .. } => reply->Truth_0,
        Handling::Traceback { .. } | Handling::Position { .. } => reply is Value,
        Handling::Append { .. } => reply is Value && can_unwind_exception(f),
        Handling::Exit { .. } => true,
        Handling::Verdict { end, .. } => reply is Truth ==> if reply->Truth_0 {
            f.has_label(end)
        } else {
            can_unwind_exception(f)
        },
    }
}

/// The request with which dealing with an exception starts.
pub open spec fn check_request(exc: PyObjectRef) -> RequestView {
    RequestView::Query(Query::IsInstance { obj: exc, class: Class::BaseException })
}

/// How dealing with an exception that came from `lineno` goes on.
pub open spec fn handle(f: FrameView, lineno: Location, handling: Handling, reply: ReplyView) -> (
    FrameView,
    UnwoundView,
) {
    match handling {
        Handling::Check { exc } => (
            f,
            UnwoundView::Ask {
                request: RequestView::Service(Service::GetTraceback { exc }),
                handling: Handling::Traceback { exc },
            },
        ),
        Handling::Traceback { exc } => (
            f,
            UnwoundView::Ask {
                request: RequestView::Service(
                    Service::NewPosition {
                        filename: f.code.source_path,
                        row: lineno.row,
                        name: f.code.obj_name,
                    },
                ),
                handling: Handling::Position { exc, traceback: reply->Value_0 },
            },
        ),
        Handling::Position { exc, traceback } => (
            f,
            UnwoundView::Ask {
                request: RequestView::Service(
                    Service::ListAppend { list: traceback, item: reply->Value_0 },
                ),
                handling: Handling::Append { exc },
            },
        ),
        Handling::Append { exc } => unwind_exception(f, exc),
        Handling::Exit { end, exc } => match reply {
            ReplyView::Failed(exit_exc) => (f, UnwoundView::Escaped(exit_exc)),
            _ => (
                f,
                UnwoundView::Ask {
                    request: RequestView::Service(Service::BoolVal { obj: reply->Value_0 }),
                    handling: Handling::Verdict { end, exc },
                },
            ),
        },
        Handling::Verdict { end, exc } => match reply {
            ReplyView::Failed(exit_exc) => (f, UnwoundView::Escaped(exit_exc)),
            _ => if reply->Truth_0 {
                (f.jump(end), UnwoundView::Handled)
            } else {
                unwind_exception(f, exc)
            },
        },
    }
}

impl Frame {
    /// Whether leaving blocks because of an exception comes to a place where the frame can go
    /// on.
    pub fn can_unwind_exception(&self) -> (can: bool)
        ensures
            can == can_unwind_exception(self@),
    {
        proof {
            lemma_innermost(self@.blocks, Halt::Exception);
            assert(self@.blocks.take(self@.blocks.len() as int) == self@.blocks);
        }
        match self.innermost(self.blocks.len(), Halt::Exception) {
            None => true,
            Some(i) => match &self.blocks[i].typ {
                BlockType::TryExcept { handler } => self.has_label(*handler),
                _ => true,
            },
        }
    }

    /// Leaves blocks because of an exception.
    pub fn unwind_exception(&mut self, exc: PyObjectRef) -> (unwound: Unwound)
        requires
            can_unwind_exception(old(self)@),
        ensures
            (final(self)@, unwound@) == unwind_exception(old(self)@, exc),
    {
        proof {
            lemma_innermost(self@.blocks, Halt::Exception);
            assert(self@.blocks.take(self@.blocks.len() as int) == self@.blocks);
        }
        match self.innermost(self.blocks.len(), Halt::Exception) {
            None => {
                self.pop_blocks_to(0);
                Unwound::Escaped(exc)
            },
            Some(i) => {
                proof {
                    lemma_pop_blocks_to(self@, i as int);
                }
                let block = self.blocks[i].clone();
                self.pop_blocks_to(i);
                match block.typ {
                    BlockType::TryExcept { handler } => {
                        self.push_value(exc);
                        self.jump(handler);
                        Unwound::Handled
                    },
                    BlockType::With { end, context_manager } => Unwound::Ask {
                        request: self.with_exit(&context_manager, Some(exc.clone())),
                        handling: Handling::Exit { end, exc },
                    },
                    _ => vstd::pervasive::unreached(),
                }
            },
        }
    }

    /// Whether dealing with the exception can go on with the reply.
    pub fn can_handle(&self, handling: &Handling, reply: &Reply) -> (can: bool)
        ensures
            can == can_handle(self@, *handling, reply@),
    {
        match (handling, reply) {
            (Handling::Check { .. }, Reply::Truth(truth)) => *truth,
            (Handling::Traceback { .. }, Reply::Value(_)) => true,
            (Handling::Position { .. }, Reply::Value(_)) => true,
            (Handling::Append { .. }, Reply::Value(_)) => self.can_unwind_exception(),
            (Handling::Exit { .. }, Reply::Value(_) | Reply::Failed(_)) => true,
            (Handling::Verdict { .. }, Reply::Failed(_)) => true,
            (Handling::Verdict { end, .. }, Reply::Truth(truth)) => if *truth {
                self.has_label(*end)
            } else {
                self.can_unwind_exception()
            },
            _ => false,
        }
    }

    /// Goes on dealing with an exception that came from `lineno`.
    pub fn handle(&mut self, lineno: Location, handling: Handling, reply: Reply) -> (unwound:
        Unwound)
        requires
            can_handle(old(self)@, handling, reply@),
        ensures
            (final(self)@, unwound@) == handle(old(self)@, lineno, handling, reply@),
    {
        match (handling, reply) {
            (Handling::Check { exc }, Reply::Truth(_)) => Unwound::Ask {
                request: Request::Service(Service::GetTraceback { exc: exc.clone() }),
                handling: Handling::Traceback { exc },
            },
            (Handling::Traceback { exc }, Reply::Value(traceback)) => Unwound::Ask {
                request: Request::Service(
                    Service::NewPosition {
                        filename: self.code.source_path.clone(),
                        row: lineno.row,
                        name: self.code.obj_name.clone(),
                    },
                ),
                handling: Handling::Position { exc, traceback },
            },
            (Handling::Position { exc, traceback }, Reply::Value(pos)) => Unwound::Ask {
                request: Request::Service(Service::ListAppend { list: traceback, item: pos }),
                handling: Handling::Append { exc },
            },
            (Handling::Append { exc }, Reply::Value(_)) => self.unwind_exception(exc),
            (Handling::Exit { end, exc }, Reply::Value(exit_action)) => Unwound::Ask {
                request: Request::Service(Service::BoolVal { obj: exit_action }),
                handling: Handling::Verdict { end, exc },
            },
            (Handling::Exit { .. }, Reply::Failed(exit_exc)) => Unwound::Escaped(exit_exc),
            (Handling::Verdict { .. }, Reply::Failed(exit_exc)) => Unwound::Escaped(exit_exc),
            (Handling::Verdict { end, exc }, Reply::Truth(handle_exception)) => {
                if handle_exception {
                    self.jump(end);
                    Unwound::Handled
                } else {
                    self.unwind_exception(exc)
                }
            },
            _ => vstd::pervasive::unreached(),
        }
    }
}

/// What a frame was doing when it asked for something.
#[derive(Debug)]
pub enum Activity {
    Executing(Continuation),
    Handling(Handling),
}

/// An `Activity` as contracts see it.
#[verifier::ext_equal]
pub enum ActivityView {
    Executing(ContinuationView),
    Handling(Handling),
}

/// A run that waits for a reply. `lineno` is where the instruction came from that is being
/// executed.
#[derive(Debug)]
pub struct Suspended {
    pub lineno: Location,
    pub activity: Activity,
}

/// A `Suspended` as contracts see it.
#[verifier::ext_equal]
pub struct SuspendedView {
    pub lineno: Location,
    pub activity: ActivityView,
}

impl View for Suspended {
    type V = SuspendedView;

    open spec fn view(&self) -> SuspendedView {
        SuspendedView {
            lineno: self.lineno,
            activity: match self.activity {
                Activity::Executing(resume) => ActivityView::Executing(resume@),
                Activity::Handling(handling) => ActivityView::Handling(handling),
            },
        }
    }
}

/// What a turn of a frame comes to.
#[derive(Debug)]
pub enum Turn {
    /// The frame returns or yields, or an exception leaves it.
    Done(Result<ExecutionResult, PyObjectRef>),
    /// The run goes on with the reply to `request`.
    Ask { request: Request, suspended: Suspended },
    /// As many instructions as were allowed are done.
    Paused,
    /// The run cannot go on: the code, the frame or the reply is faulty.
    Stuck,
}

/// A `Turn` as contracts see it.
#[verifier::ext_equal]
pub enum TurnView {
    Done(Result<ExecutionResult, PyObjectRef>),
    Ask { request: RequestView, suspended: SuspendedView },
    Paused,
    Stuck,
}

impl View for Turn {
    type V = TurnView;

    open spec fn view(&self) -> TurnView {
        match *self {
            Turn::Done(result) => TurnView::Done(result),
            Turn::Ask { request, suspended } => TurnView::Ask {
                request: request@,
                suspended: suspended@,
            },
            Turn::Paused => TurnView::Paused,
            Turn::Stuck => TurnView::Stuck,
        }
    }
}

impl TurnView {
    /// The directory from which a module is asked for; `None` if none is.
    pub open spec fn imports_from(self) -> Option<String> {
        match self {
            TurnView::Ask { request, .. } => request.imports_from(),
            _ => None,
        }
    }
}

/// Whether the next instruction can be started and it is known where it came from.
pub open spec fn can_run(f: FrameView) -> bool {
    model::can_start(f) && f.lasti < f.code.locations@.len()
}

/// What an instruction that came from `lineno` leads to: a turn that ends here, or `None` where
/// the next instruction follows.
pub open spec fn stepped(lineno: Location, step: StepView) -> Option<TurnView> {
    match step {
        StepView::Finished(Ok(None)) => None,
        StepView::Finished(Ok(Some(result))) => Some(TurnView::Done(Ok(result))),
        StepView::Finished(Err(exc)) => Some(
            TurnView::Ask {
                request: check_request(exc),
                suspended: SuspendedView {
                    lineno,
                    activity: ActivityView::Handling(Handling::Check { exc }),
                },
            },
        ),
        StepView::Ask { request, resume } => Some(
            TurnView::Ask {
                request,
                suspended: SuspendedView { lineno, activity: ActivityView::Executing(resume) },
            },
        ),
    }
}

/// What dealing with an exception that came from `lineno` leads to: a turn that ends here, or
/// `None` where the next instruction follows.
pub open spec fn handled(lineno: Location, unwound: UnwoundView) -> Option<TurnView> {
    match unwound {
        UnwoundView::Handled => None,
        UnwoundView::Escaped(exc) => Some(TurnView::Done(Err(exc))),
        UnwoundView::Ask { request, handling } => Some(
            TurnView::Ask {
                request,
                suspended: SuspendedView { lineno, activity: ActivityView::Handling(handling) },
            },
        ),
    }
}

/// A run of at most `budget` instructions. An import asks from `directory`.
pub open spec fn run(f: FrameView, budget: nat, directory: String) -> (FrameView, TurnView)
    decreases budget,
{
    if budget == 0 {
        (f, TurnView::Paused)
    } else if !can_run(f) {
        (f, TurnView::Stuck)
    } else {
        let (g, step) = model::start(f, directory);
        match stepped(f.code.locations@[f.lasti], step) {
            Some(turn) => (g, turn),
            None => run(g, (budget - 1) as nat, directory),
        }
    }
}

/// A run that goes on with a reply, and then for at most `budget` instructions. An import asks
/// from `directory`.
pub open spec fn resume(
    f: FrameView,
    suspended: SuspendedView,
    reply: ReplyView,
    budget: nat,
    directory: String,
) -> (FrameView, TurnView) {
    match suspended.activity {
        ActivityView::Executing(continuation) => if !model::can_resume(f, continuation, reply) {
            (f, TurnView::Stuck)
        } else {
            let (g, step) = model::resume(f, continuation, reply);
            match stepped(suspended.lineno, step) {
                Some(turn) => (g, turn),
                None => run(g, budget, directory),
            }
        },
        ActivityView::Handling(handling) => if !can_handle(f, handling, reply) {
            (f, TurnView::Stuck)
        } else {
            let (g, unwound) = handle(f, suspended.lineno, handling, reply);
            match handled(suspended.lineno, unwound) {
                Some(turn) => (g, turn),
                None => run(g, budget, directory),
            }
        },
    }
}

/// What a step leads to.
fn turn_of_step(lineno: Location, step: Step) -> (turn: Option<Turn>)
    ensures
        match turn {
            Some(turn) => stepped(lineno, step@) == Some(turn@),
            None => stepped(lineno, step@) is None,
        },
{
    match step {
        Step::Finished(Ok(None)) => None,
        Step::Finished(Ok(Some(result))) => Some(Turn::Done(Ok(result))),
        Step::Finished(Err(exc)) => Some(
            Turn::Ask {
                request: Request::Query(
                    Query::IsInstance { obj: exc.clone(), class: Class::BaseException },
                ),
                suspended: Suspended {
                    lineno,
                    activity: Activity::Handling(Handling::Check { exc }),
                },
            },
        ),
        Step::Ask { request, resume } => Some(
            Turn::Ask {
                request,
                suspended: Suspended { lineno, activity: Activity::Executing(resume) },
            },
        ),
    }
}

/// What dealing with an exception leads to.
fn turn_of_unwound(lineno: Location, unwound: Unwound) -> (turn: Option<Turn>)
    ensures
        match turn {
            Some(turn) => handled(lineno, unwound@) == Some(turn@),
            None => handled(lineno, unwound@) is None,
        },
{
    match unwound {
        Unwound::Handled => None,
        Unwound::Escaped(exc) => Some(Turn::Done(Err(exc))),
        Unwound::Ask { request, handling } => Some(
            Turn::Ask {
                request,
                suspended: Suspended { lineno, activity: Activity::Handling(handling) },
            },
        ),
    }
}

impl Frame {
    /// Whether the next instruction can be started and it is known where it came from.
    pub fn can_run(&self) -> (can: bool)
        ensures
            can == can_run(self@),
    {
        let code = self.code.clone();
        if self.lasti < code.instructions.len() && self.lasti < code.locations.len() {
            proof {
                lemma_fetched(self@, code.instructions@[self.lasti as int]);
            }
            self.can_execute(&code.instructions[self.lasti])
        } else {
            false
        }
    }

    /// Executes instructions until the frame returns, yields or lets an exception escape, until
    /// the virtual machine is needed, or until `budget` of them are done. An import asks from the
    /// directory of the source file.
    pub fn run(&mut self, budget: usize) -> (turn: Turn)
        ensures
            (final(self)@, turn@) == run(old(self)@, budget as nat, turn@.imports_from()->0),
            turn@.imports_from() matches Some(directory) ==> directory_of(
                old(self)@.code.source_path@,
                directory@,
            ),
    {
        let mut left: usize = budget;
        while left > 0
            invariant
                forall|directory: String|
                    run(self@, left as nat, directory) == #[trigger] run(
                        old(self)@,
                        budget as nat,
                        directory,
                    ),
                self@.code == old(self)@.code,
            decreases left,
        {
            if !self.can_run() {
                return Turn::Stuck;
            }
            let ghost f = self@;
            let lineno = self.get_lineno();
            let step = self.execute_instruction();
            proof {
                let used = step@.imports_from()->0;
                execute_keeps_setting(f.fetched(), f.code.instructions@[f.lasti], used);
                assert forall|directory: String| step@.imports_from() is None implies model::start(
                    f,
                    directory,
                ) == model::start(f, used) by {
                    directory_is_for_imports(
                        f.fetched(),
                        f.code.instructions@[f.lasti],
                        used,
                        directory,
                    );
                }
            }
            match turn_of_step(lineno, step) {
                Some(turn) => {
                    return turn;
                },
                None => {},
            }
            left = left - 1;
        }
        Turn::Paused
    }

    /// Goes on with the reply to what a turn asked for. An import asks from the directory of the
    /// source file.
    pub fn resume(&mut self, suspended: Suspended, reply: Reply, budget: usize) -> (turn: Turn)
        ensures
            (final(self)@, turn@) == resume(
                old(self)@,
                suspended@,
                reply@,
                budget as nat,
                turn@.imports_from()->0,
            ),
            turn@.imports_from() matches Some(directory) ==> directory_of(
                old(self)@.code.source_path@,
                directory@,
            ),
    {
        let lineno = suspended.lineno;
        let turn = match suspended.activity {
            Activity::Executing(continuation) => {
                if !self.can_resume(&continuation, &reply) {
                    return Turn::Stuck;
                }
                proof {
                    resume_keeps_setting(self@, continuation@, reply@);
                    resume_asks_no_import(self@, continuation@, reply@);
                }
                turn_of_step(lineno, self.resume_instruction(continuation, reply))
            },
            Activity::Handling(handling) => {
                if !self.can_handle(&handling, &reply) {
                    return Turn::Stuck;
                }
                proof {
                    handle_keeps_setting(self@, lineno, handling, reply@);
                    handle_asks_no_import(self@, lineno, handling, reply@);
                }
                turn_of_unwound(lineno, self.handle(lineno, handling, reply))
            },
        };
        match turn {
            Some(turn) => turn,
            None => self.run(budget),
        }
    }
}

/// Whether an instruction can be executed does not depend on where the frame is in its code.
proof fn lemma_fetched(f: FrameView, instruction: Instruction)
    ensures
        model::can_execute(f.fetched(), instruction) == model::can_execute(f, instruction),
{
}

} // verus!
