//! What each instruction does: which values it takes from where on the stack, what it asks of the
//! virtual machine about them, and what each answer leaves behind.

use crate::bytecode::{
    BinaryOperator, ComparisonOperator, Constant, ConversionFlag, FunctionOpArg, Instruction, Label,
    UnaryOperator,
};
use crate::continuation::{ExecutionResult, StepView};
use crate::conversation::{asked, can_hear, hear, lemma_hear_first};
use crate::frame::FrameView;
use crate::model;
use crate::model::Outcome;
use crate::object::{PyObjectPayload, PyObjectRef};
use crate::request::{
    Class, ExceptionClass, Method, Operand, Operator, Query, ReplyView, RequestView, Service,
};
use num_bigint::BigInt;
use vstd::prelude::*;

verus! {

/// The frame with another stack of values.
pub open spec fn with_stack(f: FrameView, stack: Seq<PyObjectRef>) -> FrameView {
    FrameView { code: f.code, stack, blocks: f.blocks, locals: f.locals, lasti: f.lasti }
}

/// The frame at another place in its code.
pub open spec fn moved(f: FrameView, lasti: int) -> FrameView {
    FrameView { code: f.code, stack: f.stack, blocks: f.blocks, locals: f.locals, lasti }
}

/// The place of a label that the code has.
pub open spec fn place(f: FrameView, label: Label) -> int {
    f.code.label_map@[label] as int
}

/// The value that lies `depth` values below the topmost one.
pub open spec fn value_at(f: FrameView, depth: int) -> PyObjectRef {
    f.stack[f.stack.len() - 1 - depth]
}

/// The frame without its topmost `count` values.
pub open spec fn without(f: FrameView, count: int) -> FrameView {
    with_stack(f, f.stack.take(f.stack.len() - count))
}

/// The frame with one more value on top.
pub open spec fn with_value(f: FrameView, value: PyObjectRef) -> FrameView {
    with_stack(f, f.stack.push(value))
}

/// The instruction is over, and the next one follows.
pub open spec fn over(f: FrameView) -> Outcome {
    (f, StepView::Finished(Ok(None)))
}

/// The instruction is over with an exception.
pub open spec fn raised(f: FrameView, exc: PyObjectRef) -> Outcome {
    (f, StepView::Finished(Err(exc)))
}

/// The frame is `f`, and `request` is asked.
pub open spec fn asks(o: Outcome, f: FrameView, request: RequestView) -> bool {
    o.0 == f && o.1 is Ask && o.1->request == request
}

/// With `reply` the instruction can go on, and comes to `next`.
pub open spec fn leads(o: Outcome, reply: ReplyView, next: Outcome) -> bool {
    can_hear(o, reply) && model::resume(o.0, o.1->resume, reply) == next
}

/// What the instruction comes to with `reply`.
pub open spec fn answered(o: Outcome, reply: ReplyView) -> Outcome {
    model::resume(o.0, o.1->resume, reply)
}

/// A new exception is asked for and raised.
pub open spec fn throws(
    o: Outcome,
    f: FrameView,
    class: ExceptionClass,
    message: Seq<char>,
    exc: PyObjectRef,
) -> bool {
    &&& asks(o, f, RequestView::NewException { class, message })
    &&& leads(o, ReplyView::Value(exc), raised(f, exc))
}

/// `request` is asked, what it gives is pushed, and what it raises is raised.
pub open spec fn fetches(
    o: Outcome,
    f: FrameView,
    request: RequestView,
    value: PyObjectRef,
    exc: PyObjectRef,
) -> bool {
    &&& asks(o, f, request)
    &&& leads(o, ReplyView::Value(value), over(with_value(f, value)))
    &&& leads(o, ReplyView::Failed(exc), raised(f, exc))
}

/// `request` is asked, what it gives is pushed; it raises nothing.
pub open spec fn makes(
    o: Outcome,
    f: FrameView,
    request: RequestView,
    value: PyObjectRef,
) -> bool {
    &&& asks(o, f, request)
    &&& leads(o, ReplyView::Value(value), over(with_value(f, value)))
}

/// `request` is asked, what it gives is forgotten, and what it raises is raised.
pub open spec fn performs(
    o: Outcome,
    f: FrameView,
    request: RequestView,
    value: PyObjectRef,
    exc: PyObjectRef,
) -> bool {
    &&& asks(o, f, request)
    &&& leads(o, ReplyView::Value(value), over(f))
    &&& leads(o, ReplyView::Failed(exc), raised(f, exc))
}

/// `request` is asked; it gives nothing and raises nothing.
pub open spec fn commands(o: Outcome, f: FrameView, request: RequestView) -> bool {
    &&& asks(o, f, request)
    &&& leads(o, ReplyView::Done, over(f))
}

pub open spec fn call(obj: PyObjectRef, method: Method, args: Seq<Operand>) -> RequestView {
    RequestView::CallMethod { obj, method, args }
}

// Constants, names and attributes.

/// A constant becomes an object on top of the stack; the builtin that makes classes does, too.
pub proof fn constants_are_pushed(
    f: FrameView,
    value: Constant,
    obj: PyObjectRef,
    directory: String,
)
    ensures
        model::can_execute(f, Instruction::LoadConst { value }),
        makes(
            model::execute(f, Instruction::LoadConst { value }, directory),
            f,
            RequestView::Service(Service::Constant { value }),
            obj,
        ),
        model::can_execute(f, Instruction::LoadBuildClass),
        makes(
            model::execute(f, Instruction::LoadBuildClass, directory),
            f,
            RequestView::Service(Service::BuildClass),
            obj,
        ),
{
}

/// An import asks for the module and the symbol from the directory, and pushes what it gets.
pub proof fn import_pushes_what_it_gets(
    f: FrameView,
    module: String,
    symbol: Option<String>,
    obj: PyObjectRef,
    exc: PyObjectRef,
    directory: String,
)
    ensures
        model::can_execute(f, Instruction::Import { name: module, symbol }),
        fetches(
            model::execute(f, Instruction::Import { name: module, symbol }, directory),
            f,
            RequestView::Service(Service::Import { path: directory, module, symbol }),
            obj,
            exc,
        ),
        model::can_execute(f, Instruction::ImportStar { name: module }),
        ({
            let o = model::execute(f, Instruction::ImportStar { name: module }, directory);
            &&& asks(o, f, RequestView::Service(Service::ImportModule { path: directory, module }))
            &&& leads(o, ReplyView::Failed(exc), raised(f, exc))
        }),
{
}

/// Storing a name takes the topmost value and makes it the value of the name in the scope of the
/// frame.
pub proof fn name_is_stored(f: FrameView, name: String, directory: String)
    ensures
        model::can_execute(f, Instruction::StoreName { name }) <==> f.stack.len() >= 1,
        f.stack.len() >= 1 ==> commands(
            model::execute(f, Instruction::StoreName { name }, directory),
            without(f, 1),
            RequestView::Service(
                Service::SetAttr { obj: f.locals, name, value: value_at(f, 0) },
            ),
        ),
{
}

/// Deleting a name deletes it, as a string, from the dict of the scope of the frame.
pub proof fn name_is_deleted(
    f: FrameView,
    name: String,
    dict: PyObjectRef,
    value: PyObjectRef,
    exc: PyObjectRef,
    directory: String,
)
    ensures
        model::can_execute(f, Instruction::DeleteName { name }) <==> f.locals.payload is Scope,
        ({
            let o = model::execute(f, Instruction::DeleteName { name }, directory);
            let answer = ReplyView::Value(dict);
            &&& asks(o, f, RequestView::Query(Query::ScopeLocals { scope: f.locals }))
            &&& can_hear(o, answer)
            &&& performs(
                answered(o, answer),
                f,
                call(dict, Method::DelItem, seq![Operand::Str(name)]),
                value,
                exc,
            )
        }),
{
}

/// Storing the locals makes the topmost value the dict of the scope of the frame.
pub proof fn locals_are_stored(f: FrameView, directory: String)
    ensures
        model::can_execute(f, Instruction::StoreLocals) <==> f.stack.len() >= 1
            && f.locals.payload is Scope,
        f.stack.len() >= 1 ==> commands(
            model::execute(f, Instruction::StoreLocals, directory),
            without(f, 1),
            RequestView::Service(
                Service::SetScopeLocals { scope: f.locals, locals: value_at(f, 0) },
            ),
        ),
{
}

/// An attribute of the topmost value is read in its place, or deleted, or set to the value below.
pub proof fn attributes_are_handled(
    f: FrameView,
    name: String,
    value: PyObjectRef,
    exc: PyObjectRef,
    directory: String,
)
    ensures
        model::can_execute(f, Instruction::LoadAttr { name }) <==> f.stack.len() >= 1,
        f.stack.len() >= 1 ==> fetches(
            model::execute(f, Instruction::LoadAttr { name }, directory),
            without(f, 1),
            RequestView::Service(Service::GetAttribute { obj: value_at(f, 0), name }),
            value,
            exc,
        ),
        model::can_execute(f, Instruction::StoreAttr { name }) <==> f.stack.len() >= 2,
        f.stack.len() >= 2 ==> commands(
            model::execute(f, Instruction::StoreAttr { name }, directory),
            without(f, 2),
            RequestView::Service(
                Service::SetAttr { obj: value_at(f, 0), name, value: value_at(f, 1) },
            ),
        ),
        model::can_execute(f, Instruction::DeleteAttr { name }) <==> f.stack.len() >= 1,
        f.stack.len() >= 1 ==> performs(
            model::execute(f, Instruction::DeleteAttr { name }, directory),
            without(f, 1),
            RequestView::Service(Service::DelAttr { obj: value_at(f, 0), name }),
            value,
            exc,
        ),
{
}

/// The index lies on top of the object that it is an index of, and a value to be stored below both.
pub proof fn subscripts_are_handled(
    f: FrameView,
    value: PyObjectRef,
    exc: PyObjectRef,
    directory: String,
)
    ensures
        model::can_execute(f, Instruction::StoreSubscript) <==> f.stack.len() >= 3,
        f.stack.len() >= 3 ==> performs(
            model::execute(f, Instruction::StoreSubscript, directory),
            without(f, 3),
            call(
                value_at(f, 1),
                Method::SetItem,
                seq![Operand::Object(value_at(f, 0)), Operand::Object(value_at(f, 2))],
            ),
            value,
            exc,
        ),
        model::can_execute(f, Instruction::DeleteSubscript) <==> f.stack.len() >= 2,
        f.stack.len() >= 2 ==> performs(
            model::execute(f, Instruction::DeleteSubscript, directory),
            without(f, 2),
            call(value_at(f, 1), Method::DelItem, seq![Operand::Object(value_at(f, 0))]),
            value,
            exc,
        ),
{
}

// The stack.

/// `Pass` changes nothing, `Pop` takes the topmost value away, and `Duplicate` puts it there once
/// more.
pub proof fn simple_stack_instructions(f: FrameView, directory: String)
    ensures
        model::can_execute(f, Instruction::Pass),
        model::execute(f, Instruction::Pass, directory) == over(f),
        model::can_execute(f, Instruction::Pop) <==> f.stack.len() >= 1,
        f.stack.len() >= 1 ==> model::execute(f, Instruction::Pop, directory) == over(
            without(f, 1),
        ),
        model::can_execute(f, Instruction::Duplicate) <==> f.stack.len() >= 1,
        f.stack.len() >= 1 ==> model::execute(f, Instruction::Duplicate, directory) == over(
            with_value(f, value_at(f, 0)),
        ),
{
}

/// Rotating moves the topmost value below the others that are rotated, and moves nothing else.
pub proof fn rotation_moves_topmost_value(f: FrameView, amount: usize, directory: String)
    ensures
        model::can_execute(f, Instruction::Rotate { amount }) <==> 2 <= amount <= f.stack.len(),
        2 <= amount <= f.stack.len() ==> ({
            let n = f.stack.len();
            model::execute(f, Instruction::Rotate { amount }, directory) == over(
                with_stack(
                    f,
                    f.stack.take(n - amount) + seq![f.stack[n - 1]] + f.stack.subrange(
                        n - amount,
                        n - 1,
                    ),
                ),
            )
        }),
{
    let n = f.stack.len();
    if 2 <= amount <= n {
        assert(model::rotate(f, amount as int).stack == f.stack.take(n - amount) + seq![
            f.stack[n - 1],
        ] + f.stack.subrange(n - amount, n - 1));
    }
}

// Operators.

/// For each binary operator the operation of the virtual machine, on new objects and in place.
pub open spec fn operations(op: BinaryOperator) -> (Operator, Operator) {
    match op {
        BinaryOperator::Power => (Operator::Pow, Operator::IPow),
        BinaryOperator::Multiply => (Operator::Mul, Operator::IMul),
        BinaryOperator::MatrixMultiply => (Operator::MatMul, Operator::IMatMul),
        BinaryOperator::Divide => (Operator::TrueDiv, Operator::ITrueDiv),
        BinaryOperator::FloorDivide => (Operator::FloorDiv, Operator::IFloorDiv),
        BinaryOperator::Modulo => (Operator::Mod, Operator::IMod),
        BinaryOperator::Add => (Operator::Add, Operator::IAdd),
        BinaryOperator::Subtract => (Operator::Sub, Operator::ISub),
        BinaryOperator::Lshift => (Operator::Lshift, Operator::ILshift),
        BinaryOperator::Rshift => (Operator::Rshift, Operator::IRshift),
        BinaryOperator::And => (Operator::And, Operator::IAnd),
        BinaryOperator::Xor => (Operator::Xor, Operator::IXor),
        BinaryOperator::Or => (Operator::Or, Operator::IOr),
        BinaryOperator::Subscript => arbitrary(),
    }
}

/// A binary operator works on the topmost two values, the lower one being the first operand, and
/// leaves the result in their place. Subscription asks the first operand for an item.
pub proof fn binary_operators_work_on_topmost_two(
    f: FrameView,
    op: BinaryOperator,
    inplace: bool,
    value: PyObjectRef,
    exc: PyObjectRef,
    directory: String,
)
    ensures
        ({
            let instruction = Instruction::BinaryOperation { op, inplace };
            let o = model::execute(f, instruction, directory);
            let (a, b) = (value_at(f, 1), value_at(f, 0));
            &&& model::can_execute(f, instruction) <==> f.stack.len() >= 2 && !(op
                == BinaryOperator::Subscript && inplace)
            &&& model::can_execute(f, instruction) && op != BinaryOperator::Subscript ==> fetches(
                o,
                without(f, 2),
                RequestView::Service(
                    Service::Binary {
                        op: if inplace {
                            operations(op).1
                        } else {
                            operations(op).0
                        },
                        a,
                        b,
                    },
                ),
                value,
                exc,
            )
            &&& model::can_execute(f, instruction) && op == BinaryOperator::Subscript ==> fetches(
                o,
                without(f, 2),
                call(a, Method::GetItem, seq![Operand::Object(b)]),
                value,
                exc,
            )
        }),
{
}

/// A unary operator asks the topmost value for the result, which takes its place. `not` pushes the
/// opposite of the truth value.
pub proof fn unary_operators_work_on_topmost(
    f: FrameView,
    op: UnaryOperator,
    truth: bool,
    value: PyObjectRef,
    exc: PyObjectRef,
    directory: String,
)
    ensures
        model::can_execute(f, Instruction::UnaryOperation { op }) <==> f.stack.len() >= 1,
        f.stack.len() >= 1 ==> ({
            let o = model::execute(f, Instruction::UnaryOperation { op }, directory);
            let g = without(f, 1);
            let a = value_at(f, 0);
            match op {
                UnaryOperator::Minus => fetches(o, g, call(a, Method::Neg, seq![]), value, exc),
                UnaryOperator::Plus => fetches(o, g, call(a, Method::Pos, seq![]), value, exc),
                UnaryOperator::Invert => fetches(
                    o,
                    g,
                    call(a, Method::Invert, seq![]),
                    value,
                    exc,
                ),
                UnaryOperator::Not => {
                    &&& asks(o, g, RequestView::Service(Service::BoolVal { obj: a }))
                    &&& leads(o, ReplyView::Failed(exc), raised(g, exc))
                    &&& can_hear(o, ReplyView::Truth(truth))
                    &&& makes(
                        answered(o, ReplyView::Truth(truth)),
                        g,
                        RequestView::Service(Service::NewBool { value: !truth }),
                        value,
                    )
                },
            }
        }),
{
}

/// For each comparison that the virtual machine makes, its operation.
pub open spec fn comparison(op: ComparisonOperator) -> Option<Operator> {
    match op {
        ComparisonOperator::Equal => Some(Operator::Eq),
        ComparisonOperator::NotEqual => Some(Operator::Ne),
        ComparisonOperator::Less => Some(Operator::Lt),
        ComparisonOperator::LessOrEqual => Some(Operator::Le),
        ComparisonOperator::Greater => Some(Operator::Gt),
        ComparisonOperator::GreaterOrEqual => Some(Operator::Ge),
        _ => None,
    }
}

/// A comparison works on the topmost two values, the lower one being the first operand, and leaves
/// the result in their place. Identity is that of the two objects.
pub proof fn comparisons_work_on_topmost_two(
    f: FrameView,
    op: ComparisonOperator,
    value: PyObjectRef,
    exc: PyObjectRef,
    directory: String,
)
    ensures
        model::can_execute(f, Instruction::CompareOperation { op }) <==> f.stack.len() >= 2,
        f.stack.len() >= 2 ==> ({
            let o = model::execute(f, Instruction::CompareOperation { op }, directory);
            let g = without(f, 2);
            let (a, b) = (value_at(f, 1), value_at(f, 0));
            &&& comparison(op) matches Some(operator) ==> fetches(
                o,
                g,
                RequestView::Service(Service::Binary { op: operator, a, b }),
                value,
                exc,
            )
            &&& op == ComparisonOperator::Is ==> makes(
                o,
                g,
                RequestView::Service(Service::NewBool { value: a.id == b.id }),
                value,
            )
            &&& op == ComparisonOperator::IsNot ==> makes(
                o,
                g,
                RequestView::Service(Service::NewBool { value: a.id != b.id }),
                value,
            )
        }),
{
}

/// `in` asks the topmost value whether it contains the one below and pushes its answer; `not in`
/// pushes the opposite of the answer, which is a bool. Where the question fails, a `TypeError`
/// names the type of what was to be searched.
pub proof fn membership_asks_container(
    f: FrameView,
    negated: bool,
    found: PyObjectRef,
    truth: bool,
    value: PyObjectRef,
    failure: PyObjectRef,
    class_name: String,
    exc: PyObjectRef,
    directory: String,
)
    requires
        f.stack.len() >= 2,
    ensures
        ({
            let op = if negated {
                ComparisonOperator::NotIn
            } else {
                ComparisonOperator::In
            };
            let o = model::execute(f, Instruction::CompareOperation { op }, directory);
            let g = without(f, 2);
            let (needle, haystack) = (value_at(f, 1), value_at(f, 0));
            let yes = answered(o, ReplyView::Value(found));
            let no = answered(o, ReplyView::Failed(failure));
            &&& asks(o, g, call(haystack, Method::Contains, seq![Operand::Object(needle)]))
            &&& can_hear(o, ReplyView::Value(found))
            &&& !negated ==> yes == over(with_value(g, found))
            &&& negated ==> {
                &&& asks(yes, g, RequestView::Query(Query::BoolValue { obj: found }))
                &&& can_hear(yes, ReplyView::Truth(truth))
                &&& makes(
                    answered(yes, ReplyView::Truth(truth)),
                    g,
                    RequestView::Service(Service::NewBool { value: !truth }),
                    value,
                )
            }
            &&& can_hear(o, ReplyView::Failed(failure))
            &&& asks(no, g, RequestView::Query(Query::TypeName { obj: haystack }))
            &&& can_hear(no, ReplyView::Text(class_name))
            &&& throws(
                answered(no, ReplyView::Text(class_name)),
                g,
                ExceptionClass::TypeError,
                class_name@ + " has no __contains__ method"@,
                exc,
            )
        }),
{
}

// Jumps and iteration.

/// A jump goes to its target and changes nothing else.
pub proof fn jump_moves_to_target(f: FrameView, target: Label, directory: String)
    ensures
        model::can_execute(f, Instruction::Jump { target })
            <==> f.code.label_map@.contains_key(target),
        model::execute(f, Instruction::Jump { target }, directory) == over(
            moved(f, place(f, target)),
        ),
{
}

/// A conditional jump takes the topmost value, and goes to its target exactly when the truth of the
/// value is what it jumps on; else the next instruction follows.
pub proof fn conditional_jump_goes_by_truth(
    f: FrameView,
    target: Label,
    truth: bool,
    exc: PyObjectRef,
    directory: String,
)
    ensures
        model::can_execute(f, Instruction::JumpIf { target }) <==> f.stack.len() >= 1,
        model::can_execute(f, Instruction::JumpIfFalse { target }) <==> f.stack.len() >= 1,
        f.stack.len() >= 1 ==> ({
            let g = without(f, 1);
            let a = model::execute(f, Instruction::JumpIf { target }, directory);
            let b = model::execute(f, Instruction::JumpIfFalse { target }, directory);
            let request = RequestView::Service(Service::BoolVal { obj: value_at(f, 0) });
            &&& asks(a, g, request)
            &&& asks(b, g, request)
            &&& leads(a, ReplyView::Failed(exc), raised(g, exc))
            &&& leads(b, ReplyView::Failed(exc), raised(g, exc))
            &&& leads(a, ReplyView::Truth(false), over(g))
            &&& leads(b, ReplyView::Truth(true), over(g))
            &&& f.code.label_map@.contains_key(target) ==> {
                &&& leads(a, ReplyView::Truth(true), over(moved(g, place(f, target))))
                &&& leads(b, ReplyView::Truth(false), over(moved(g, place(f, target))))
            }
            &&& !f.code.label_map@.contains_key(target) ==> {
                &&& !can_hear(a, ReplyView::Truth(true))
                &&& !can_hear(b, ReplyView::Truth(false))
            }
        }),
{
}

/// The topmost value is replaced by an iterator over it.
pub proof fn iterator_takes_place_of_value(
    f: FrameView,
    value: PyObjectRef,
    exc: PyObjectRef,
    directory: String,
)
    ensures
        model::can_execute(f, Instruction::GetIter) <==> f.stack.len() >= 1,
        f.stack.len() >= 1 ==> fetches(
            model::execute(f, Instruction::GetIter, directory),
            without(f, 1),
            RequestView::Service(Service::GetIter { obj: value_at(f, 0) }),
            value,
            exc,
        ),
{
}

/// A loop over the iterator on top of the stack pushes the next object above it. If there is none,
/// the iterator is dropped and the loop goes to its target; if the iterator fails, it is dropped
/// and the failure is raised.
pub proof fn for_loop_advances_iterator(
    f: FrameView,
    target: Label,
    value: PyObjectRef,
    exc: PyObjectRef,
    directory: String,
)
    ensures
        model::can_execute(f, Instruction::ForIter { target }) <==> f.stack.len() >= 1,
        f.stack.len() >= 1 ==> ({
            let o = model::execute(f, Instruction::ForIter { target }, directory);
            &&& asks(o, f, RequestView::Service(Service::NextObject { iterator: value_at(f, 0) }))
            &&& leads(o, ReplyView::Next(Some(value)), over(with_value(f, value)))
            &&& leads(o, ReplyView::Failed(exc), raised(without(f, 1), exc))
            &&& if f.code.label_map@.contains_key(target) {
                leads(
                    o,
                    ReplyView::Next(None),
                    over(moved(without(f, 1), place(f, target))),
                )
            } else {
                !can_hear(o, ReplyView::Next(None))
            }
        }),
{
}

/// Yielding hands out the topmost value. Yielding from an iterator drops the value that was sent
/// and hands out the next object of the iterator below, with the same instruction to follow again;
/// if there is none, the iterator is dropped and the next instruction follows.
pub proof fn yields_hand_out_values(
    f: FrameView,
    value: PyObjectRef,
    exc: PyObjectRef,
    directory: String,
)
    requires
        f.lasti >= 1,
    ensures
        model::can_execute(f, Instruction::YieldValue) <==> f.stack.len() >= 1,
        f.stack.len() >= 1 ==> model::execute(f, Instruction::YieldValue, directory) == (
            without(f, 1),
            StepView::Finished(Ok(Some(ExecutionResult::Yield(value_at(f, 0))))),
        ),
        model::can_execute(f, Instruction::YieldFrom) <==> f.stack.len() >= 2,
        f.stack.len() >= 2 ==> ({
            let o = model::execute(f, Instruction::YieldFrom, directory);
            let g = without(f, 1);
            &&& asks(o, g, RequestView::Service(Service::NextObject { iterator: value_at(f, 1) }))
            &&& leads(
                o,
                ReplyView::Next(Some(value)),
                (
                    moved(g, f.lasti - 1),
                    StepView::Finished(Ok(Some(ExecutionResult::Yield(value)))),
                ),
            )
            &&& leads(o, ReplyView::Next(None), over(without(f, 2)))
            &&& leads(o, ReplyView::Failed(exc), raised(g, exc))
        }),
{
    if f.stack.len() >= 2 {
        assert(without(f, 1).stack.take(f.stack.len() - 2) == f.stack.take(f.stack.len() - 2));
    }
}

// Comprehensions.

/// In a comprehension the item, or the key on top of the value, goes into the collection that lies
/// `i` values below what is taken.
pub proof fn comprehensions_fill_collection(
    f: FrameView,
    i: usize,
    value: PyObjectRef,
    exc: PyObjectRef,
    directory: String,
)
    ensures
        model::can_execute(f, Instruction::ListAppend { i }) <==> i < f.stack.len(),
        i < f.stack.len() ==> performs(
            model::execute(f, Instruction::ListAppend { i }, directory),
            without(f, 1),
            RequestView::Service(
                Service::ListAppend { list: value_at(f, i as int), item: value_at(f, 0) },
            ),
            value,
            exc,
        ),
        model::can_execute(f, Instruction::SetAdd { i }) <==> i < f.stack.len(),
        i < f.stack.len() ==> performs(
            model::execute(f, Instruction::SetAdd { i }, directory),
            without(f, 1),
            call(value_at(f, i as int), Method::Add, seq![Operand::Object(value_at(f, 0))]),
            value,
            exc,
        ),
        model::can_execute(f, Instruction::MapAdd { i }) <==> i + 1 < f.stack.len(),
        i + 1 < f.stack.len() ==> performs(
            model::execute(f, Instruction::MapAdd { i }, directory),
            without(f, 2),
            call(
                value_at(f, i + 1),
                Method::SetItem,
                seq![Operand::Object(value_at(f, 0)), Operand::Object(value_at(f, 1))],
            ),
            value,
            exc,
        ),
{
}

// Functions and expressions.

/// A function is made of the code below the topmost value, in the scope of the frame, with the
/// defaults below the code if there are any.
pub proof fn function_is_made(
    f: FrameView,
    flags: FunctionOpArg,
    value: PyObjectRef,
    directory: String,
)
    ensures
        ({
            let count: int = if flags.has_defaults {
                3
            } else {
                2
            };
            &&& model::can_execute(f, Instruction::MakeFunction { flags }) <==> f.stack.len()
                >= count
            &&& f.stack.len() >= count ==> makes(
                model::execute(f, Instruction::MakeFunction { flags }, directory),
                without(f, count),
                RequestView::Service(
                    Service::NewFunction {
                        code: value_at(f, 1),
                        scope: f.locals,
                        defaults: if flags.has_defaults {
                            Some(value_at(f, 2))
                        } else {
                            None
                        },
                    },
                ),
                value,
            )
        }),
{
}

/// The value of an expression is shown by its `repr`, unless it is `None`.
pub proof fn expression_is_printed(
    f: FrameView,
    repr: PyObjectRef,
    value: PyObjectRef,
    exc: PyObjectRef,
    directory: String,
)
    ensures
        model::can_execute(f, Instruction::PrintExpr) <==> f.stack.len() >= 1,
        f.stack.len() >= 1 ==> ({
            let o = model::execute(f, Instruction::PrintExpr, directory);
            let g = without(f, 1);
            if value_at(f, 0).payload is NoneValue {
                o == over(g)
            } else {
                &&& asks(o, g, RequestView::Service(Service::ToRepr { obj: value_at(f, 0) }))
                &&& leads(o, ReplyView::Failed(exc), raised(g, exc))
                &&& can_hear(o, ReplyView::Value(repr))
                &&& performs(
                    answered(o, ReplyView::Value(repr)),
                    g,
                    RequestView::Service(Service::Print { obj: repr }),
                    value,
                    exc,
                )
            }
        }),
{
}

/// A value is formatted by its own `__format__`, after it was turned to `str` or `repr` where that
/// is asked for, and the text takes its place.
pub proof fn value_is_formatted(
    f: FrameView,
    conversion: Option<ConversionFlag>,
    spec: String,
    converted: PyObjectRef,
    value: PyObjectRef,
    exc: PyObjectRef,
    directory: String,
)
    ensures
        model::can_execute(f, Instruction::FormatValue { conversion, spec }) <==> f.stack.len()
            >= 1,
        f.stack.len() >= 1 ==> ({
            let o = model::execute(f, Instruction::FormatValue { conversion, spec }, directory);
            let g = without(f, 1);
            let obj = value_at(f, 0);
            let args = seq![Operand::Str(spec)];
            if conversion == Some(ConversionFlag::Str) || conversion == Some(ConversionFlag::Repr) {
                &&& asks(
                    o,
                    g,
                    RequestView::Service(
                        if conversion == Some(ConversionFlag::Str) {
                            Service::ToStr { obj }
                        } else {
                            Service::ToRepr { obj }
                        },
                    ),
                )
                &&& leads(o, ReplyView::Failed(exc), raised(g, exc))
                &&& can_hear(o, ReplyView::Value(converted))
                &&& fetches(
                    answered(o, ReplyView::Value(converted)),
                    g,
                    call(converted, Method::Format, args),
                    value,
                    exc,
                )
            } else {
                fetches(o, g, call(obj, Method::Format, args), value, exc)
            }
        }),
{
}

// Slices.

/// Whether a bound of a slice is the one that an object stands for: the integer that it holds, or
/// no bound if it is `None`.
pub open spec fn bounds(bound: Option<BigInt>, obj: PyObjectRef) -> bool {
    match obj.payload {
        PyObjectPayload::Integer { value } => bound == Some(value),
        PyObjectPayload::NoneValue => bound is None,
        _ => false,
    }
}

/// A slice is made of two or three integers or `None`: in the order in which they were pushed they
/// are its start, its stop and, where there are three, its step.
pub proof fn slice_has_its_bounds(
    f: FrameView,
    size: usize,
    value: PyObjectRef,
    directory: String,
)
    requires
        size == 2 || size == 3,
        size <= f.stack.len(),
        forall|i: int|
            0 <= i < size ==> (#[trigger] value_at(f, i)).payload is Integer || value_at(
                f,
                i,
            ).payload is NoneValue,
    ensures
        model::can_execute(f, Instruction::BuildSlice { size }),
        ({
            let o = model::execute(f, Instruction::BuildSlice { size }, directory);
            let n = f.stack.len();
            &&& o.0 == without(f, size as int)
            &&& o.1 is Ask
            &&& o.1->request matches RequestView::Service(
                Service::NewSlice { start, stop, step },
            )
            &&& bounds(start, f.stack[n - size])
            &&& bounds(stop, f.stack[n - size + 1])
            &&& size == 3 ==> bounds(step, f.stack[n - 1])
            &&& size == 2 ==> step is None
            &&& leads(o, ReplyView::Value(value), over(with_value(o.0, value)))
        }),
{
    let n = f.stack.len();
    assert forall|i: int| n - size <= i < n implies model::is_slice_bound(
        #[trigger] f.stack[i],
    ) by {
        assert(value_at(f, n - 1 - i) == f.stack[i]);
    }
}

/// Nothing but two or three integers or `None` makes a slice.
pub proof fn slice_takes_nothing_else(f: FrameView, size: usize)
    requires
        model::can_execute(f, Instruction::BuildSlice { size }),
    ensures
        size == 2 || size == 3,
        size <= f.stack.len(),
        forall|i: int|
            0 <= i < size ==> (#[trigger] value_at(f, i)).payload is Integer || value_at(
                f,
                i,
            ).payload is NoneValue,
{
    assert forall|i: int| 0 <= i < size implies (#[trigger] value_at(f, i)).payload is Integer
        || value_at(f, i).payload is NoneValue by {
        assert(model::is_slice_bound(f.stack[f.stack.len() - 1 - i]));
    }
}

// Unpacking.

/// Whether the values of a list lie on top of the stack of `f` in `g`, the first of them topmost,
/// and nothing else changed.
pub open spec fn spread(f: FrameView, values: Seq<PyObjectRef>, g: FrameView) -> bool {
    &&& g.stack.len() == f.stack.len() + values.len()
    &&& forall|i: int| 0 <= i < values.len() ==> #[trigger] value_at(g, i) == values[i]
    &&& without(g, values.len() as int) == f
}

proof fn lemma_spread(f: FrameView, values: Seq<PyObjectRef>)
    ensures
        spread(f, values, f.push_reversed(values)),
{
    let g = f.push_reversed(values);
    assert(g.stack.take(f.stack.len() as int) == f.stack);
}

/// A sequence is unpacked only into as many targets as it has elements; then they lie on the stack
/// in its place, the first topmost. With more or fewer a `ValueError` is raised and nothing is
/// pushed.
pub proof fn sequence_fits_its_targets(
    f: FrameView,
    size: usize,
    elements: Seq<PyObjectRef>,
    failure: PyObjectRef,
    exc: PyObjectRef,
    directory: String,
)
    ensures
        model::can_execute(f, Instruction::UnpackSequence { size }) <==> f.stack.len() >= 1,
        f.stack.len() >= 1 ==> ({
            let o = model::execute(f, Instruction::UnpackSequence { size }, directory);
            let g = without(f, 1);
            let p = answered(o, ReplyView::Elements(elements));
            &&& asks(o, g, RequestView::Service(Service::ExtractElements { obj: value_at(f, 0) }))
            &&& leads(o, ReplyView::Failed(failure), raised(g, failure))
            &&& can_hear(o, ReplyView::Elements(elements))
            &&& elements.len() == size ==> p == over(p.0) && spread(g, elements, p.0)
            &&& elements.len() != size ==> throws(
                p,
                g,
                ExceptionClass::ValueError,
                "Wrong number of values to unpack"@,
                exc,
            )
        }),
{
    lemma_spread(without(f, 1), elements);
}

/// All elements of a sequence are put in its place, the first topmost.
pub proof fn sequence_is_spread(
    f: FrameView,
    elements: Seq<PyObjectRef>,
    failure: PyObjectRef,
    directory: String,
)
    ensures
        model::can_execute(f, Instruction::Unpack) <==> f.stack.len() >= 1,
        f.stack.len() >= 1 ==> ({
            let o = model::execute(f, Instruction::Unpack, directory);
            let g = without(f, 1);
            let p = answered(o, ReplyView::Elements(elements));
            &&& asks(o, g, RequestView::Service(Service::ExtractElements { obj: value_at(f, 0) }))
            &&& leads(o, ReplyView::Failed(failure), raised(g, failure))
            &&& can_hear(o, ReplyView::Elements(elements))
            &&& p == over(p.0)
            &&& spread(g, elements, p.0)
        }),
{
    lemma_spread(without(f, 1), elements);
}

/// With a starred target, a sequence that has elements enough is put on the stack as the first
/// `before` elements, a list of those between, and the last `after` elements, the first topmost.
/// With too few, a `ValueError` says how many were expected and how many there are, and nothing is
/// pushed.
pub proof fn starred_target_takes_the_rest(
    f: FrameView,
    before: usize,
    after: usize,
    elements: Seq<PyObjectRef>,
    list: PyObjectRef,
    failure: PyObjectRef,
    exc: PyObjectRef,
    directory: String,
)
    requires
        before + after <= usize::MAX,
    ensures
        model::can_execute(f, Instruction::UnpackEx { before, after }) <==> f.stack.len() >= 1,
        f.stack.len() >= 1 ==> ({
            let o = model::execute(f, Instruction::UnpackEx { before, after }, directory);
            let g = without(f, 1);
            let n = elements.len();
            let p = answered(o, ReplyView::Elements(elements));
            let q = answered(p, ReplyView::Value(list));
            &&& asks(o, g, RequestView::Service(Service::ExtractElements { obj: value_at(f, 0) }))
            &&& leads(o, ReplyView::Failed(failure), raised(g, failure))
            &&& can_hear(o, ReplyView::Elements(elements))
            &&& n >= before + after ==> {
                &&& p.1 is Ask
                &&& p.1->request == (RequestView::NewList {
                    elements: elements.subrange(before as int, n - after),
                })
                &&& can_hear(p, ReplyView::Value(list))
                &&& q == over(q.0)
                &&& spread(
                    g,
                    elements.take(before as int) + seq![list] + elements.skip(n - after),
                    q.0,
                )
            }
            &&& n < before + after ==> throws(
                p,
                g,
                ExceptionClass::ValueError,
                "Not enough values to unpack (expected at least "@ + crate::text::decimal(
                    (before + after) as nat,
                ) + ", got "@ + crate::text::decimal(n),
                exc,
            )
        }),
{
    if f.stack.len() >= 1 && elements.len() >= before + after {
        let g = without(f, 1);
        let n = elements.len();
        let first = elements.take(before as int);
        let last = elements.skip(n - after);
        let all = first + seq![list] + last;
        let h = g.push_reversed(last).push(list).push_reversed(first);
        assert(h.stack == (g.stack + last.reverse()).push(list) + first.reverse());
        assert(h.stack.take(g.stack.len() as int) == g.stack);
        assert forall|i: int| 0 <= i < all.len() implies #[trigger] value_at(h, i) == all[i] by {}
    }
}

// Raising.

/// Raising takes the topmost value. An exception is raised as it is. A class of exceptions is
/// raised by a new exception of it, or by what making that one raises. For anything else a
/// `TypeError` shows it.
pub proof fn raise_takes_exceptions_and_their_classes(
    f: FrameView,
    argc: usize,
    made: PyObjectRef,
    failure: PyObjectRef,
    shown: String,
    exc: PyObjectRef,
    directory: String,
)
    ensures
        model::can_execute(f, Instruction::Raise { argc }) <==> argc == 1 && f.stack.len() >= 1,
        argc == 1 && f.stack.len() >= 1 ==> ({
            let (yes, no) = (ReplyView::Truth(true), ReplyView::Truth(false));
            let obj = value_at(f, 0);
            let g = without(f, 1);
            let o = model::execute(f, Instruction::Raise { argc }, directory);
            let p = answered(o, no);
            let q = answered(p, yes);
            let r = answered(q, yes);
            let message = "Can only raise BaseException derived types, not "@ + shown@;
            &&& asks(
                o,
                g,
                RequestView::Query(Query::IsInstance { obj, class: Class::BaseException }),
            )
            &&& leads(o, yes, raised(g, obj))
            &&& can_hear(o, no)
            &&& asks(p, g, RequestView::Query(Query::IsInstance { obj, class: Class::Type }))
            &&& can_hear(p, yes)
            &&& asks(
                q,
                g,
                RequestView::Query(Query::IsSubclass { obj, class: Class::BaseException }),
            )
            &&& can_hear(q, yes)
            &&& asks(r, g, RequestView::Service(Service::EmptyException { class: obj }))
            &&& leads(r, ReplyView::Value(made), raised(g, made))
            &&& leads(r, ReplyView::Failed(failure), raised(g, failure))
            &&& can_hear(p, no)
            &&& refuses(answered(p, no), g, obj, shown, message, exc)
            &&& can_hear(q, no)
            &&& refuses(answered(q, no), g, obj, shown, message, exc)
        }),
{
}

/// The object is asked for as it is shown, and a `TypeError` with the message is raised.
pub open spec fn refuses(
    o: Outcome,
    f: FrameView,
    obj: PyObjectRef,
    shown: String,
    message: Seq<char>,
    exc: PyObjectRef,
) -> bool {
    &&& asks(o, f, RequestView::Query(Query::Display { obj }))
    &&& can_hear(o, ReplyView::Text(shown))
    &&& throws(answered(o, ReplyView::Text(shown)), f, ExceptionClass::TypeError, message, exc)
}

// Looking names up.

/// For each scope of a chain but the last: whether it holds the name, whether it has a parent, and
/// which.
pub open spec fn miss_requests(chain: Seq<PyObjectRef>, name: String) -> Seq<RequestView>
    decreases chain.len(),
{
    if chain.len() <= 1 {
        seq![]
    } else {
        seq![
            RequestView::Query(Query::ScopeContains { scope: chain[0], name }),
            RequestView::Query(Query::ScopeHasParent { scope: chain[0] }),
            RequestView::Query(Query::ScopeParent { scope: chain[0] }),
        ] + miss_requests(chain.drop_first(), name)
    }
}

/// For each scope of a chain but the last: it does not hold the name, it has a parent, and that is
/// the next scope.
pub open spec fn passed_by(chain: Seq<PyObjectRef>) -> Seq<ReplyView>
    decreases chain.len(),
{
    if chain.len() <= 1 {
        seq![]
    } else {
        seq![ReplyView::Truth(false), ReplyView::Truth(true), ReplyView::Value(chain[1])]
            + passed_by(chain.drop_first())
    }
}

proof fn lemma_look_up(f: FrameView, chain: Seq<PyObjectRef>, name: String)
    requires
        chain.len() >= 1,
    ensures
        hear(model::look_up(f, chain[0], name), passed_by(chain)) == Some(
            model::look_up(f, chain.last(), name),
        ),
        asked(model::look_up(f, chain[0], name), passed_by(chain)) == miss_requests(chain, name),
    decreases chain.len(),
{
    if chain.len() > 1 {
        let o = model::look_up(f, chain[0], name);
        let rest = passed_by(chain.drop_first());
        let third = seq![ReplyView::Value(chain[1])] + rest;
        let second = seq![ReplyView::Truth(true)] + third;
        assert(passed_by(chain) == seq![ReplyView::Truth(false)] + second);
        lemma_hear_first(o, ReplyView::Truth(false), second);
        let o1 = answered(o, ReplyView::Truth(false));
        lemma_hear_first(o1, ReplyView::Truth(true), third);
        let o2 = answered(o1, ReplyView::Truth(true));
        lemma_hear_first(o2, ReplyView::Value(chain[1]), rest);
        lemma_look_up(f, chain.drop_first(), name);
        assert(chain.drop_first().last() == chain.last());
        assert(asked(o, passed_by(chain)) == miss_requests(chain, name));
    }
}

/// A name is looked for in the scope of the frame and then in the scopes around it, one after the
/// other. The first that holds it gives the value, which is pushed; if none does, a `NameError`
/// names it.
pub proof fn name_is_looked_up_outwards(
    f: FrameView,
    chain: Seq<PyObjectRef>,
    name: String,
    value: PyObjectRef,
    exc: PyObjectRef,
    directory: String,
)
    requires
        chain.len() >= 1,
        chain[0] == f.locals,
    ensures
        model::can_execute(f, Instruction::LoadName { name }),
        ({
            let o = model::execute(f, Instruction::LoadName { name }, directory);
            let scope = chain.last();
            let p = hear(o, passed_by(chain))->0;
            let found = answered(p, ReplyView::Truth(true));
            let missed = answered(p, ReplyView::Truth(false));
            &&& hear(o, passed_by(chain)) is Some
            &&& asked(o, passed_by(chain)) == miss_requests(chain, name)
            &&& asks(p, f, RequestView::Query(Query::ScopeContains { scope, name }))
            &&& can_hear(p, ReplyView::Truth(true))
            &&& makes(found, f, RequestView::Query(Query::ScopeItem { scope, name }), value)
            &&& can_hear(p, ReplyView::Truth(false))
            &&& asks(missed, f, RequestView::Query(Query::ScopeHasParent { scope }))
            &&& can_hear(missed, ReplyView::Truth(false))
            &&& throws(
                answered(missed, ReplyView::Truth(false)),
                f,
                ExceptionClass::NameError,
                "name '"@ + name@ + "' is not defined"@,
                exc,
            )
        }),
{
    lemma_look_up(f, chain, name);
}

} // verus!
