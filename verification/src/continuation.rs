//! What a frame does with the reply to a request, and what comes out of a step.

use crate::bytecode::Label;
use crate::object::PyObjectRef;
use crate::request::{Request, RequestView};
use vstd::prelude::*;

verus! {

/// Running a frame can result in one of these.
#[derive(Debug)]
pub enum ExecutionResult {
    Return(PyObjectRef),
    Yield(PyObjectRef),
}

/// What an instruction that is done gives: nothing, so that the next instruction follows, or a
/// result of the frame, or an exception.
pub type FrameResult = Result<Option<ExecutionResult>, PyObjectRef>;

/// The collections that instructions build from elements.
#[derive(Debug, Clone, Copy, PartialEq, Eq, Structural)]
pub enum Collection {
    PyList,
    PyTuple,
    PySet,
}

/// Where an instruction that leaves the body of a loop goes.
#[derive(Debug, Clone, Copy, PartialEq, Eq, Structural)]
pub enum LoopJump {
    /// Behind the loop.
    Break,
    /// To the start of the loop.
    Continue,
}

/// A continuation that carries no list and no text that is still being made.
///
/// Unless it says otherwise, a failure is raised.
#[derive(Debug)]
pub enum After {
    /// Pushes the value.
    Push,
    /// Takes no notice of the value.
    Discard,
    /// Raises the value, which is a new exception.
    Throw,
    /// Pushes the negation of the truth value.
    Negate,
    /// Jumps if the truth value is `when`.
    JumpWhen { target: Label, when: bool },
    /// Pushes the next object of the iterator on top of the stack; if there is none, drops the
    /// iterator and jumps. A failure drops the iterator, too.
    Advance { target: Label },
    /// Yields the next object of the iterator on top of the stack and lets the instruction run
    /// again; if there is none, drops the iterator.
    Delegate,
    /// Enters the block of a `with` statement, whose value is the reply.
    Enter { end: Label, context_manager: PyObjectRef },
    /// Prints the text of an expression.
    PrintRepr,
    /// Formats the converted value.
    Format { spec: String },
    /// Pushes whether the object was found; a failure becomes a `TypeError`.
    In { haystack: PyObjectRef },
    /// Pushes whether the object was not found; a failure becomes a `TypeError`.
    NotIn { haystack: PyObjectRef },
    /// Raises that the type of this name has no `__contains__`.
    NoContains,
    /// Loads a name from the scope if the scope holds it, else goes on with the parent.
    LookUp { scope: PyObjectRef, name: String },
    /// Goes on with the parent of the scope, or raises that the name is not defined.
    Climb { scope: PyObjectRef, name: String },
    /// Looks a name up in the parent that was asked for.
    Ascend { name: String },
    /// Deletes a name from the dict of the scope.
    DeleteName { name: String },
    /// Raises the object if it is an exception.
    RaiseInstance { exc: PyObjectRef },
    /// Goes on with the object as a class if it is one.
    RaiseType { exc: PyObjectRef },
    /// Raises an exception of the class if it is a class of exceptions.
    RaiseSubclass { exc: PyObjectRef },
    /// Raises that the object of this text cannot be raised.
    RaiseInvalid,
    /// Pushes the elements, of which there must be `size`.
    UnpackSequence { size: usize },
    /// Pushes the first and the last elements, and a list of those between them.
    UnpackEx { before: usize, after: usize },
    /// Pushes the elements.
    Unpack,
    /// Goes on leaving blocks on the way to returning `value`.
    ReturnExit { value: PyObjectRef },
    /// Goes on leaving blocks on the way out of the loop body.
    LoopExit { jump: LoopJump },
    /// Takes the named arguments of a call from a dict.
    CallEntries,
    /// Reads the names of an imported module.
    ImportStar,
    /// Stores the names of an imported module.
    ImportPairs,
}

/// What a frame does with the reply to its request. Lists of what is still to be done hold the
/// next item last.
#[derive(Debug)]
pub enum Continuation {
    After(After),
    /// Joins texts: `text` is what was joined, `rest` the string objects that are left.
    Join { text: String, rest: Vec<PyObjectRef> },
    /// Collects the elements of sequences: `rest` are the sequences that are left.
    Gather { kind: Collection, elements: Vec<PyObjectRef>, rest: Vec<PyObjectRef> },
    /// Fills the new set with `elements`.
    StartSet { elements: Vec<PyObjectRef> },
    /// Goes on filling `set`.
    FillSet { set: PyObjectRef, rest: Vec<PyObjectRef> },
    /// Fills the new dict with `pairs` and with the entries of `dicts`.
    StartMap { pairs: Vec<(PyObjectRef, PyObjectRef)>, dicts: Vec<PyObjectRef> },
    /// Goes on filling `map`.
    FillMap {
        map: PyObjectRef,
        pairs: Vec<(PyObjectRef, PyObjectRef)>,
        dicts: Vec<PyObjectRef>,
    },
    /// Puts the entries that were asked for into `map`.
    MapPairs { map: PyObjectRef, dicts: Vec<PyObjectRef> },
    /// Takes the names of the arguments of a call.
    CallNames { args: Vec<PyObjectRef> },
    /// Goes on reading the names of the arguments: `rest` are those that are left.
    CallName { args: Vec<PyObjectRef>, names: Vec<String>, rest: Vec<PyObjectRef> },
    /// Calls with the elements as arguments.
    CallElements { kwargs: Vec<(String, PyObjectRef)> },
    /// Pushes the list of the elements in the middle and then `first`.
    UnpackFirst { first: Vec<PyObjectRef> },
    /// Stores `value` under the name that was asked for.
    ImportName { value: PyObjectRef, rest: Vec<(PyObjectRef, PyObjectRef)> },
    /// Goes on storing the names of a module.
    ImportNext { rest: Vec<(PyObjectRef, PyObjectRef)> },
}

/// A `Continuation` as contracts see it.
#[verifier::ext_equal]
pub enum ContinuationView {
    After(After),
    Join { text: Seq<char>, rest: Seq<PyObjectRef> },
    Gather { kind: Collection, elements: Seq<PyObjectRef>, rest: Seq<PyObjectRef> },
    StartSet { elements: Seq<PyObjectRef> },
    FillSet { set: PyObjectRef, rest: Seq<PyObjectRef> },
    StartMap { pairs: Seq<(PyObjectRef, PyObjectRef)>, dicts: Seq<PyObjectRef> },
    FillMap {
        map: PyObjectRef,
        pairs: Seq<(PyObjectRef, PyObjectRef)>,
        dicts: Seq<PyObjectRef>,
    },
    MapPairs { map: PyObjectRef, dicts: Seq<PyObjectRef> },
    CallNames { args: Seq<PyObjectRef> },
    CallName { args: Seq<PyObjectRef>, names: Seq<String>, rest: Seq<PyObjectRef> },
    CallElements { kwargs: Seq<(String, PyObjectRef)> },
    UnpackFirst { first: Seq<PyObjectRef> },
    ImportName { value: PyObjectRef, rest: Seq<(PyObjectRef, PyObjectRef)> },
    ImportNext { rest: Seq<(PyObjectRef, PyObjectRef)> },
}

impl View for Continuation {
    type V = ContinuationView;

    open spec fn view(&self) -> ContinuationView {
        match *self {
            Continuation::After(after) => ContinuationView::After(after),
            Continuation::Join { text, rest } => ContinuationView::Join {
                text: text@,
                rest: rest@,
            },
            Continuation::Gather { kind, elements, rest } => ContinuationView::Gather {
                kind,
                elements: elements@,
                rest: rest@,
            },
            Continuation::StartSet { elements } => ContinuationView::StartSet {
                elements: elements@,
            },
            Continuation::FillSet { set, rest } => ContinuationView::FillSet { set, rest: rest@ },
            Continuation::StartMap { pairs, dicts } => ContinuationView::StartMap {
                pairs: pairs@,
                dicts: dicts@,
            },
            Continuation::FillMap { map, pairs, dicts } => ContinuationView::FillMap {
                map,
                pairs: pairs@,
                dicts: dicts@,
            },
            Continuation::MapPairs { map, dicts } => ContinuationView::MapPairs {
                map,
                dicts: dicts@,
            },
            Continuation::CallNames { args } => ContinuationView::CallNames { args: args@ },
            Continuation::CallName { args, names, rest } => ContinuationView::CallName {
                args: args@,
                names: names@,
                rest: rest@,
            },
            Continuation::CallElements { kwargs } => ContinuationView::CallElements {
                kwargs: kwargs@,
            },
            Continuation::UnpackFirst { first } => ContinuationView::UnpackFirst { first: first@ },
            Continuation::ImportName { value, rest } => ContinuationView::ImportName {
                value,
                rest: rest@,
            },
            Continuation::ImportNext { rest } => ContinuationView::ImportNext { rest: rest@ },
        }
    }
}

/// What a step of an instruction comes to.
#[derive(Debug)]
pub enum Step {
    /// The instruction is done.
    Finished(FrameResult),
    /// The instruction goes on with the reply to `request`.
    Ask { request: Request, resume: Continuation },
}

/// A `Step` as contracts see it.
#[verifier::ext_equal]
pub enum StepView {
    Finished(FrameResult),
    Ask { request: RequestView, resume: ContinuationView },
}

impl View for Step {
    type V = StepView;

    open spec fn view(&self) -> StepView {
        match *self {
            Step::Finished(result) => StepView::Finished(result),
            Step::Ask { request, resume } => StepView::Ask { request: request@, resume: resume@ },
        }
    }
}

impl StepView {
    /// The directory from which a module is asked for; `None` if none is.
    pub open spec fn imports_from(self) -> Option<String> {
        match self {
            StepView::Ask { request, .. } => request.imports_from(),
            StepView::Finished(_) => None,
        }
    }
}

} // verus!
