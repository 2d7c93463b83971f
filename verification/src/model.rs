//! What each instruction means: the frame that it leaves, and what it asks for or comes to.
//!
//! An outcome is a frame with a step. Every definition here speaks of the frame behind the
//! instruction, that is, with `lasti` at the instruction that follows.

use crate::bytecode::{
    BinaryOperator, CallType, ComparisonOperator, ConversionFlag, FunctionOpArg, Instruction,
    Label, UnaryOperator,
};
use crate::continuation::{
    After, Collection, ContinuationView, ExecutionResult, LoopJump, StepView,
};
use crate::frame::{Block, BlockType, FrameView};
use crate::object::{PyObjectPayload, PyObjectRef};
use crate::request::{
    Class, ExceptionClass, Method, Operand, Operator, Query, ReplyView, RequestView, Service,
};
use crate::text::{no_contains, not_an_exception, not_defined, not_enough, wrong_number};
use num_bigint::BigInt;
use vstd::prelude::*;

verus! {

pub type Outcome = (FrameView, StepView);

/// The instruction is done and the next one follows.
pub open spec fn go_on(f: FrameView) -> Outcome {
    (f, StepView::Finished(Ok(None)))
}

/// The instruction raises an exception.
pub open spec fn raise(f: FrameView, exc: PyObjectRef) -> Outcome {
    (f, StepView::Finished(Err(exc)))
}

pub open spec fn ask(f: FrameView, request: RequestView, resume: ContinuationView) -> Outcome {
    (f, StepView::Ask { request, resume })
}

pub open spec fn query_step(query: Query, after: After) -> StepView {
    StepView::Ask {
        request: RequestView::Query(query),
        resume: ContinuationView::After(after),
    }
}

pub open spec fn ask_query(f: FrameView, query: Query, after: After) -> Outcome {
    (f, query_step(query, after))
}

pub open spec fn service_step(service: Service, after: After) -> StepView {
    StepView::Ask {
        request: RequestView::Service(service),
        resume: ContinuationView::After(after),
    }
}

pub open spec fn ask_service(f: FrameView, service: Service, after: After) -> Outcome {
    (f, service_step(service, after))
}

pub open spec fn method_step(
    obj: PyObjectRef,
    method: Method,
    args: Seq<Operand>,
    after: After,
) -> StepView {
    StepView::Ask {
        request: RequestView::CallMethod { obj, method, args },
        resume: ContinuationView::After(after),
    }
}

pub open spec fn ask_method(
    f: FrameView,
    obj: PyObjectRef,
    method: Method,
    args: Seq<Operand>,
    after: After,
) -> Outcome {
    (f, method_step(obj, method, args, after))
}

/// A new exception is asked for, to be raised.
pub open spec fn exception_step(class: ExceptionClass, message: Seq<char>) -> StepView {
    StepView::Ask {
        request: RequestView::NewException { class, message },
        resume: ContinuationView::After(After::Throw),
    }
}

pub open spec fn ask_exception(
    f: FrameView,
    class: ExceptionClass,
    message: Seq<char>,
) -> Outcome {
    (f, exception_step(class, message))
}

// Operators.

/// The operation of the virtual machine for an operator; subscription has none.
pub open spec fn binary_operator(op: BinaryOperator, inplace: bool) -> Option<Operator> {
    match (op, inplace) {
        (BinaryOperator::Subtract, false) => Some(Operator::Sub),
        (BinaryOperator::Subtract, true) => Some(Operator::ISub),
        (BinaryOperator::Add, false) => Some(Operator::Add),
        (BinaryOperator::Add, true) => Some(Operator::IAdd),
        (BinaryOperator::Multiply, false) => Some(Operator::Mul),
        (BinaryOperator::Multiply, true) => Some(Operator::IMul),
        (BinaryOperator::MatrixMultiply, false) => Some(Operator::MatMul),
        (BinaryOperator::MatrixMultiply, true) => Some(Operator::IMatMul),
        (BinaryOperator::Power, false) => Some(Operator::Pow),
        (BinaryOperator::Power, true) => Some(Operator::IPow),
        (BinaryOperator::Divide, false) => Some(Operator::TrueDiv),
        (BinaryOperator::Divide, true) => Some(Operator::ITrueDiv),
        (BinaryOperator::FloorDivide, false) => Some(Operator::FloorDiv),
        (BinaryOperator::FloorDivide, true) => Some(Operator::IFloorDiv),
        (BinaryOperator::Subscript, _) => None,
        (BinaryOperator::Modulo, false) => Some(Operator::Mod),
        (BinaryOperator::Modulo, true) => Some(Operator::IMod),
        (BinaryOperator::Lshift, false) => Some(Operator::Lshift),
        (BinaryOperator::Lshift, true) => Some(Operator::ILshift),
        (BinaryOperator::Rshift, false) => Some(Operator::Rshift),
        (BinaryOperator::Rshift, true) => Some(Operator::IRshift),
        (BinaryOperator::Xor, false) => Some(Operator::Xor),
        (BinaryOperator::Xor, true) => Some(Operator::IXor),
        (BinaryOperator::Or, false) => Some(Operator::Or),
        (BinaryOperator::Or, true) => Some(Operator::IOr),
        (BinaryOperator::And, false) => Some(Operator::And),
        (BinaryOperator::And, true) => Some(Operator::IAnd),
    }
}

/// The second operand lies on top of the first.
pub open spec fn binop(f: FrameView, op: BinaryOperator, inplace: bool) -> Outcome {
    let a = f.nth(1);
    let b = f.nth(0);
    match binary_operator(op, inplace) {
        Some(op) => ask_service(f.drop(2), Service::Binary { op, a, b }, After::Push),
        None => subscript(f.drop(2), a, b),
    }
}

pub open spec fn subscript(f: FrameView, a: PyObjectRef, b: PyObjectRef) -> Outcome {
    ask_method(f, a, Method::GetItem, seq![Operand::Object(b)], After::Push)
}

pub open spec fn unop(f: FrameView, op: UnaryOperator) -> Outcome {
    let a = f.top();
    match op {
        UnaryOperator::Minus => ask_method(f.drop(1), a, Method::Neg, seq![], After::Push),
        UnaryOperator::Plus => ask_method(f.drop(1), a, Method::Pos, seq![], After::Push),
        UnaryOperator::Invert => ask_method(f.drop(1), a, Method::Invert, seq![], After::Push),
        UnaryOperator::Not => ask_service(f.drop(1), Service::BoolVal { obj: a }, After::Negate),
    }
}

/// Whether `needle` is found is asked of `haystack`.
pub open spec fn membership(
    f: FrameView,
    needle: PyObjectRef,
    haystack: PyObjectRef,
    after: After,
) -> Outcome {
    ask_method(f, haystack, Method::Contains, seq![Operand::Object(needle)], after)
}

pub open spec fn new_bool(f: FrameView, value: bool) -> Outcome {
    ask_service(f, Service::NewBool { value }, After::Push)
}

pub open spec fn compare(f: FrameView, op: ComparisonOperator) -> Outcome {
    let a = f.nth(1);
    let b = f.nth(0);
    let g = f.drop(2);
    match op {
        ComparisonOperator::Equal => ask_service(
            g,
            Service::Binary { op: Operator::Eq, a, b },
            After::Push,
        ),
        ComparisonOperator::NotEqual => ask_service(
            g,
            Service::Binary { op: Operator::Ne, a, b },
            After::Push,
        ),
        ComparisonOperator::Less => ask_service(
            g,
            Service::Binary { op: Operator::Lt, a, b },
            After::Push,
        ),
        ComparisonOperator::LessOrEqual => ask_service(
            g,
            Service::Binary { op: Operator::Le, a, b },
            After::Push,
        ),
        ComparisonOperator::Greater => ask_service(
            g,
            Service::Binary { op: Operator::Gt, a, b },
            After::Push,
        ),
        ComparisonOperator::GreaterOrEqual => ask_service(
            g,
            Service::Binary { op: Operator::Ge, a, b },
            After::Push,
        ),
        ComparisonOperator::Is => new_bool(g, a.id == b.id),
        ComparisonOperator::IsNot => new_bool(g, a.id != b.id),
        ComparisonOperator::In => membership(g, a, b, After::In { haystack: b }),
        ComparisonOperator::NotIn => membership(g, a, b, After::NotIn { haystack: b }),
    }
}

// Values that are built from several.

/// The text of `rest` is appended to `text`, the last item first.
pub open spec fn join(f: FrameView, text: Seq<char>, rest: Seq<PyObjectRef>) -> Outcome {
    if rest.len() == 0 {
        ask(f, RequestView::NewStr { value: text }, ContinuationView::After(After::Push))
    } else {
        ask(
            f,
            RequestView::Query(Query::StrValue { obj: rest.last() }),
            ContinuationView::Join { text, rest: rest.drop_last() },
        )
    }
}

pub open spec fn collect(
    f: FrameView,
    kind: Collection,
    elements: Seq<PyObjectRef>,
) -> Outcome {
    match kind {
        Collection::PyList => ask(
            f,
            RequestView::NewList { elements },
            ContinuationView::After(After::Push),
        ),
        Collection::PyTuple => ask(
            f,
            RequestView::NewTuple { elements },
            ContinuationView::After(After::Push),
        ),
        Collection::PySet => ask(
            f,
            RequestView::Service(Service::NewSet),
            ContinuationView::StartSet { elements },
        ),
    }
}

/// The elements of the sequences `rest` are appended to `elements`, the last sequence first.
pub open spec fn gather(
    f: FrameView,
    kind: Collection,
    elements: Seq<PyObjectRef>,
    rest: Seq<PyObjectRef>,
) -> Outcome {
    if rest.len() == 0 {
        collect(f, kind, elements)
    } else {
        ask(
            f,
            RequestView::Service(Service::ExtractElements { obj: rest.last() }),
            ContinuationView::Gather { kind, elements, rest: rest.drop_last() },
        )
    }
}

/// Builds a collection of the topmost `size` values or, where they are unpacked, of their
/// elements.
pub open spec fn build(f: FrameView, kind: Collection, size: int, unpack: bool) -> Outcome {
    let values = f.top_values(size);
    if unpack {
        gather(f.drop(size), kind, seq![], values.reverse())
    } else {
        collect(f.drop(size), kind, values)
    }
}

/// The items `rest` go into the set, the last one first.
pub open spec fn fill_set(f: FrameView, set: PyObjectRef, rest: Seq<PyObjectRef>) -> Outcome {
    if rest.len() == 0 {
        go_on(f.push(set))
    } else {
        ask(
            f,
            RequestView::CallMethod {
                obj: set,
                method: Method::Add,
                args: seq![Operand::Object(rest.last())],
            },
            ContinuationView::FillSet { set, rest: rest.drop_last() },
        )
    }
}

/// The entries `pairs` and those of `dicts` go into the dict, the last one first.
pub open spec fn fill_map(
    f: FrameView,
    map: PyObjectRef,
    pairs: Seq<(PyObjectRef, PyObjectRef)>,
    dicts: Seq<PyObjectRef>,
) -> Outcome {
    if pairs.len() > 0 {
        ask(
            f,
            RequestView::Service(
                Service::SetItem { map, key: pairs.last().0, value: pairs.last().1 },
            ),
            ContinuationView::FillMap { map, pairs: pairs.drop_last(), dicts },
        )
    } else if dicts.len() > 0 {
        ask(
            f,
            RequestView::Query(Query::DictPairs { obj: dicts.last() }),
            ContinuationView::MapPairs { map, dicts: dicts.drop_last() },
        )
    } else {
        go_on(f.push(map))
    }
}

/// Values that lie on a stack as keys, each with its value on top, as pairs.
pub open spec fn paired(values: Seq<PyObjectRef>) -> Seq<(PyObjectRef, PyObjectRef)> {
    Seq::new(values.len() / 2, |i: int| (values[2 * i], values[2 * i + 1]))
}

/// Builds a dict of the topmost entries. What was pushed last is put in first.
pub open spec fn build_map(f: FrameView, size: int, unpack: bool) -> Outcome {
    let count = if unpack {
        size
    } else {
        2 * size
    };
    let values = f.top_values(count);
    ask(
        f.drop(count),
        RequestView::Service(Service::NewDict),
        if unpack {
            ContinuationView::StartMap { pairs: seq![], dicts: values }
        } else {
            ContinuationView::StartMap { pairs: paired(values), dicts: seq![] }
        },
    )
}

/// The bound of a slice that an object stands for.
pub open spec fn slice_bound(obj: PyObjectRef) -> Option<BigInt> {
    match obj.payload {
        PyObjectPayload::Integer { value } => Some(value),
        _ => None,
    }
}

pub open spec fn is_slice_bound(obj: PyObjectRef) -> bool {
    obj.payload is Integer || obj.payload is NoneValue
}

pub open spec fn build_slice(f: FrameView, size: int) -> Outcome {
    let values = f.top_values(size);
    ask_service(
        f.drop(size),
        Service::NewSlice {
            start: slice_bound(values[0]),
            stop: slice_bound(values[1]),
            step: if size == 3 {
                slice_bound(values[2])
            } else {
                None
            },
        },
        After::Push,
    )
}

// Names.

/// The names that an imported module holds are stored, the last one first.
pub open spec fn store_names(
    f: FrameView,
    rest: Seq<(PyObjectRef, PyObjectRef)>,
) -> Outcome {
    if rest.len() == 0 {
        go_on(f)
    } else {
        ask(
            f,
            RequestView::Query(Query::StrValue { obj: rest.last().0 }),
            ContinuationView::ImportName { value: rest.last().1, rest: rest.drop_last() },
        )
    }
}

pub open spec fn look_up(f: FrameView, scope: PyObjectRef, name: String) -> Outcome {
    ask_query(f, Query::ScopeContains { scope, name }, After::LookUp { scope, name })
}

// Calls.

/// Calls what lies on top of the stack.
pub open spec fn invoke(
    f: FrameView,
    args: Seq<PyObjectRef>,
    kwargs: Seq<(String, PyObjectRef)>,
) -> Outcome {
    ask(
        f.drop(1),
        RequestView::Invoke { func: f.top(), args, kwargs },
        ContinuationView::After(After::Push),
    )
}

/// The texts of `rest` become names, the last one first; then what lies on top of the stack is
/// called.
pub open spec fn invoke_named(
    f: FrameView,
    args: Seq<PyObjectRef>,
    names: Seq<String>,
    rest: Seq<PyObjectRef>,
) -> Outcome {
    if rest.len() == 0 {
        ask(
            f.drop(1),
            RequestView::InvokeNamed { func: f.top(), args, names },
            ContinuationView::After(After::Push),
        )
    } else {
        ask(
            f,
            RequestView::Query(Query::StrValue { obj: rest.last() }),
            ContinuationView::CallName { args, names, rest: rest.drop_last() },
        )
    }
}

/// The arguments on top of the stack are turned to a list of arguments.
pub open spec fn invoke_elements(f: FrameView, kwargs: Seq<(String, PyObjectRef)>) -> Outcome {
    ask(
        f.drop(1),
        RequestView::Service(Service::ExtractElements { obj: f.top() }),
        ContinuationView::CallElements { kwargs },
    )
}

pub open spec fn call_function(f: FrameView, typ: CallType) -> Outcome {
    match typ {
        CallType::Positional(count) => invoke(
            f.drop(count as int),
            f.top_values(count as int),
            seq![],
        ),
        CallType::Keyword(count) => {
            let g = f.drop(1);
            ask(
                g.drop(count as int),
                RequestView::Service(Service::ExtractElements { obj: f.top() }),
                ContinuationView::CallNames { args: g.top_values(count as int) },
            )
        },
        CallType::Ex(true) => ask_query(
            f.drop(1),
            Query::DictEntries { obj: f.top() },
            After::CallEntries,
        ),
        CallType::Ex(false) => invoke_elements(f, seq![]),
    }
}

// Blocks.

/// What brings the leaving of blocks to a halt.
#[derive(Debug, Clone, Copy, PartialEq, Eq, Structural)]
pub enum Halt {
    /// A return: context managers.
    Return,
    /// A jump out of a loop body: loops and context managers.
    Jump,
    /// An exception: handlers and context managers.
    Exception,
}

impl Halt {
    pub open spec fn at(self, block: Block) -> bool {
        match self {
            Halt::Return => block.typ is With,
            Halt::Jump => !(block.typ is TryExcept),
            Halt::Exception => !(block.typ is Loop),
        }
    }
}

/// The index of the innermost block at which leaving blocks comes to a halt, or -1.
pub open spec fn innermost(blocks: Seq<Block>, halt: Halt) -> int
    decreases blocks.len(),
{
    if blocks.len() == 0 {
        -1
    } else if halt.at(blocks.last()) {
        blocks.len() - 1
    } else {
        innermost(blocks.drop_last(), halt)
    }
}

/// The arguments of `__exit__`.
pub open spec fn exit_args(exc: Option<PyObjectRef>) -> Seq<Operand> {
    match exc {
        Some(exc) => seq![Operand::TypeOf(exc), Operand::Object(exc), Operand::NoneObject],
        None => seq![Operand::NoneObject, Operand::NoneObject, Operand::NoneObject],
    }
}

pub open spec fn exit_request(
    context_manager: PyObjectRef,
    exc: Option<PyObjectRef>,
) -> RequestView {
    RequestView::CallMethod {
        obj: context_manager,
        method: Method::Exit,
        args: exit_args(exc),
    }
}

/// On the way to returning `value` all blocks are left; the context managers among them are told
/// so.
pub open spec fn unwind_blocks(f: FrameView, value: PyObjectRef) -> Outcome {
    let i = innermost(f.blocks, Halt::Return);
    if i < 0 {
        (
            f.pop_blocks_to(0),
            StepView::Finished(Ok(Some(ExecutionResult::Return(value)))),
        )
    } else {
        ask(
            f.pop_blocks_to(i),
            exit_request(f.blocks[i].typ->context_manager, None),
            ContinuationView::After(After::ReturnExit { value }),
        )
    }
}

/// The label that a jump out of a loop body goes to.
pub open spec fn loop_label(typ: BlockType, jump: LoopJump) -> Label {
    match jump {
        LoopJump::Break => typ->Loop_end,
        LoopJump::Continue => typ->start,
    }
}

/// Whether the blocks can be left up to the innermost loop or context manager.
pub open spec fn can_unwind_loop(f: FrameView, jump: LoopJump) -> bool {
    let i = innermost(f.blocks, Halt::Jump);
    &&& i >= 0
    &&& f.blocks[i].typ is Loop ==> f.has_label(loop_label(f.blocks[i].typ, jump))
}

/// On the way to the innermost loop the handlers of exceptions are left. A context manager that
/// is met is told so, with its block still entered. The block of the loop is left by `break`.
pub open spec fn unwind_loop(f: FrameView, jump: LoopJump) -> Outcome {
    let i = innermost(f.blocks, Halt::Jump);
    let g = f.pop_blocks_to(i + 1);
    match f.blocks[i].typ {
        BlockType::With { end, context_manager } => ask(
            g,
            exit_request(context_manager, None),
            ContinuationView::After(After::LoopExit { jump }),
        ),
        typ => go_on(
            match jump {
                LoopJump::Break => g.pop_block().jump(loop_label(typ, jump)),
                LoopJump::Continue => g.jump(loop_label(typ, jump)),
            },
        ),
    }
}

// Raising.

pub open spec fn raise_object(f: FrameView, exc: PyObjectRef) -> Outcome {
    ask_query(
        f,
        Query::IsInstance { obj: exc, class: Class::BaseException },
        After::RaiseInstance { exc },
    )
}

// Instructions.

/// Whether the stack, the blocks and the labels are such that the instruction can start.
pub open spec fn can_execute(f: FrameView, instruction: Instruction) -> bool {
    let n = f.stack.len();
    match instruction {
        Instruction::Import { .. }
        | Instruction::ImportStar { .. }
        | Instruction::LoadName { .. }
        | Instruction::LoadConst { .. }
        | Instruction::SetupLoop { .. }
        | Instruction::SetupExcept { .. }
        | Instruction::Pass
        | Instruction::LoadBuildClass => true,
        Instruction::DeleteName { .. } => f.locals.payload is Scope,
        Instruction::StoreLocals => n >= 1 && f.locals.payload is Scope,
        Instruction::StoreSubscript => n >= 3,
        Instruction::DeleteSubscript
        | Instruction::StoreAttr { .. }
        | Instruction::CompareOperation { .. }
        | Instruction::YieldFrom => n >= 2,
        Instruction::BinaryOperation { op, inplace } => n >= 2 && !(op == BinaryOperator::Subscript
            && inplace),
        Instruction::Rotate { amount } => 2 <= amount <= n,
        Instruction::BuildString { size } => size <= n,
        Instruction::BuildTuple { size, .. } => size <= n,
        Instruction::BuildList { size, .. } => size <= n,
        Instruction::BuildSet { size, .. } => size <= n,
        Instruction::BuildMap { size, unpack } => (if unpack {
            size as int
        } else {
            2 * size
        }) <= n,
        Instruction::BuildSlice { size } => {
            &&& size == 2 || size == 3
            &&& size <= n
            &&& forall|i: int| n - size <= i < n ==> is_slice_bound(#[trigger] f.stack[i])
        },
        Instruction::ListAppend { i } => i < n,
        Instruction::SetAdd { i } => i < n,
        Instruction::MapAdd { i } => i + 1 < n,
        Instruction::CleanupWith { end } => {
            &&& f.blocks.len() > 0
            &&& f.blocks.last().typ is With
            &&& f.blocks.last().typ->With_end == end
        },
        Instruction::PopBlock => f.blocks.len() > 0,
        Instruction::MakeFunction { flags } => n >= (if flags.has_defaults {
            3int
        } else {
            2int
        }),
        Instruction::CallFunction { typ: CallType::Positional(count) } => count < n,
        Instruction::CallFunction { typ: CallType::Keyword(count) } => count < n,
        Instruction::CallFunction { typ: CallType::Ex(_) } => n >= 1,
        Instruction::Jump { target } => f.has_label(target),
        Instruction::Raise { argc } => argc == 1 && n >= 1,
        Instruction::Break => can_unwind_loop(f, LoopJump::Break),
        Instruction::Continue => can_unwind_loop(f, LoopJump::Continue),
        Instruction::StoreName { .. }
        | Instruction::LoadAttr { .. }
        | Instruction::DeleteAttr { .. }
        | Instruction::UnaryOperation { .. }
        | Instruction::Pop
        | Instruction::Duplicate
        | Instruction::GetIter
        | Instruction::JumpIf { .. }
        | Instruction::JumpIfFalse { .. }
        | Instruction::ForIter { .. }
        | Instruction::ReturnValue
        | Instruction::YieldValue
        | Instruction::SetupWith { .. }
        | Instruction::PrintExpr
        | Instruction::UnpackSequence { .. }
        | Instruction::UnpackEx { .. }
        | Instruction::Unpack
        | Instruction::FormatValue { .. } => n >= 1,
    }
}

/// The topmost value moves below the `amount - 1` values under it.
pub open spec fn rotate(f: FrameView, amount: int) -> FrameView {
    let n = f.stack.len();
    FrameView { stack: f.stack.drop_last().insert(n - amount, f.stack.last()), ..f }
}

pub open spec fn format_value(
    f: FrameView,
    conversion: Option<ConversionFlag>,
    spec: String,
) -> Outcome {
    let value = f.top();
    let g = f.drop(1);
    match conversion {
        Some(ConversionFlag::Str) => ask_service(
            g,
            Service::ToStr { obj: value },
            After::Format { spec },
        ),
        Some(ConversionFlag::Repr) => ask_service(
            g,
            Service::ToRepr { obj: value },
            After::Format { spec },
        ),
        _ => ask_method(g, value, Method::Format, seq![Operand::Str(spec)], After::Push),
    }
}

/// The topmost value is stored under a name.
pub open spec fn store_name(f: FrameView, name: String) -> Outcome {
    ask_service(
        f.drop(1),
        Service::SetAttr { obj: f.locals, name, value: f.top() },
        After::Discard,
    )
}

/// A name is deleted from the dict of the scope.
pub open spec fn delete_name(f: FrameView, name: String) -> Outcome {
    ask_query(
        f,
        Query::ScopeLocals { scope: f.locals },
        After::DeleteName { name },
    )
}

/// The index lies on top of the object, the value below it.
pub open spec fn store_subscript(f: FrameView) -> Outcome {
    ask_method(
        f.drop(3),
        f.nth(1),
        Method::SetItem,
        seq![Operand::Object(f.nth(0)), Operand::Object(f.nth(2))],
        After::Discard,
    )
}

/// The index lies on top of the object.
pub open spec fn delete_subscript(f: FrameView) -> Outcome {
    ask_method(
        f.drop(2),
        f.nth(1),
        Method::DelItem,
        seq![Operand::Object(f.nth(0))],
        After::Discard,
    )
}

/// An attribute of the topmost value takes its place.
pub open spec fn load_attr(f: FrameView, name: String) -> Outcome {
    ask_service(
        f.drop(1),
        Service::GetAttribute { obj: f.top(), name },
        After::Push,
    )
}

/// The object lies on top of the value.
pub open spec fn store_attr(f: FrameView, name: String) -> Outcome {
    ask_service(
        f.drop(2),
        Service::SetAttr { obj: f.nth(0), name, value: f.nth(1) },
        After::Discard,
    )
}

/// An attribute of the topmost value is deleted.
pub open spec fn delete_attr(f: FrameView, name: String) -> Outcome {
    ask_service(
        f.drop(1),
        Service::DelAttr { obj: f.top(), name },
        After::Discard,
    )
}

/// The code lies below the name, and the defaults below the code.
pub open spec fn make_function(f: FrameView, flags: FunctionOpArg) -> Outcome {
    ask_service(
        f.drop(
            if flags.has_defaults {
                3
            } else {
                2
            },
        ),
        Service::NewFunction {
            code: f.nth(1),
            scope: f.locals,
            defaults: if flags.has_defaults {
                Some(f.nth(2))
            } else {
                None
            },
        },
        After::Push,
    )
}

/// How an instruction starts, in a frame that can execute it. An import asks from `directory`.
pub open spec fn execute(f: FrameView, instruction: Instruction, directory: String) -> Outcome {
    match instruction {
        Instruction::LoadConst { value } => ask_service(
            f,
            Service::Constant { value },
            After::Push,
        ),
        Instruction::Import { name, symbol } => ask_service(
            f,
            Service::Import { path: directory, module: name, symbol },
            After::Push,
        ),
        Instruction::ImportStar { name } => ask_service(
            f,
            Service::ImportModule { path: directory, module: name },
            After::ImportStar,
        ),
        Instruction::LoadName { name } => look_up(f, f.locals, name),
        Instruction::StoreName { name } => store_name(f, name),
        Instruction::DeleteName { name } => delete_name(f, name),
        Instruction::StoreSubscript => store_subscript(f),
        Instruction::DeleteSubscript => delete_subscript(f),
        Instruction::Pop => go_on(f.drop(1)),
        Instruction::Duplicate => go_on(f.push(f.top())),
        Instruction::Rotate { amount } => go_on(rotate(f, amount as int)),
        Instruction::BuildString { size } => join(
            f.drop(size as int),
            seq![],
            f.top_values(size as int).reverse(),
        ),
        Instruction::BuildList { size, unpack } => build(
            f,
            Collection::PyList,
            size as int,
            unpack,
        ),
        Instruction::BuildSet { size, unpack } => build(
            f,
            Collection::PySet,
            size as int,
            unpack,
        ),
        Instruction::BuildTuple { size, unpack } => build(
            f,
            Collection::PyTuple,
            size as int,
            unpack,
        ),
        Instruction::BuildMap { size, unpack } => build_map(f, size as int, unpack),
        Instruction::BuildSlice { size } => build_slice(f, size as int),
        Instruction::ListAppend { i } => ask_service(
            f.drop(1),
            Service::ListAppend { list: f.nth(i as int), item: f.top() },
            After::Discard,
        ),
        Instruction::SetAdd { i } => ask_method(
            f.drop(1),
            f.nth(i as int),
            Method::Add,
            seq![Operand::Object(f.top())],
            After::Discard,
        ),
        Instruction::MapAdd { i } => ask_method(
            f.drop(2),
            f.nth(i + 1),
            Method::SetItem,
            seq![Operand::Object(f.nth(0)), Operand::Object(f.nth(1))],
            After::Discard,
        ),
        Instruction::BinaryOperation { op, inplace } => binop(f, op, inplace),
        Instruction::LoadAttr { name } => load_attr(f, name),
        Instruction::StoreAttr { name } => store_attr(f, name),
        Instruction::DeleteAttr { name } => delete_attr(f, name),
        Instruction::UnaryOperation { op } => unop(f, op),
        Instruction::CompareOperation { op } => compare(f, op),
        Instruction::ReturnValue => unwind_blocks(f.drop(1), f.top()),
        Instruction::YieldValue => (
            f.drop(1),
            StepView::Finished(Ok(Some(ExecutionResult::Yield(f.top())))),
        ),
        Instruction::YieldFrom => ask_service(
            f.drop(1),
            Service::NextObject { iterator: f.nth(1) },
            After::Delegate,
        ),
        Instruction::SetupLoop { start, end } => go_on(
            f.push_block(BlockType::Loop { start, end }),
        ),
        Instruction::SetupExcept { handler } => go_on(
            f.push_block(BlockType::TryExcept { handler }),
        ),
        Instruction::SetupWith { end } => ask_method(
            f.drop(1),
            f.top(),
            Method::Enter,
            seq![],
            After::Enter { end, context_manager: f.top() },
        ),
        Instruction::CleanupWith { end } => ask(
            f.pop_block(),
            exit_request(f.blocks.last().typ->context_manager, None),
            ContinuationView::After(After::Discard),
        ),
        Instruction::PopBlock => go_on(f.pop_block()),
        Instruction::GetIter => ask_service(
            f.drop(1),
            Service::GetIter { obj: f.top() },
            After::Push,
        ),
        Instruction::ForIter { target } => ask_service(
            f,
            Service::NextObject { iterator: f.top() },
            After::Advance { target },
        ),
        Instruction::MakeFunction { flags } => make_function(f, flags),
        Instruction::CallFunction { typ } => call_function(f, typ),
        Instruction::Jump { target } => go_on(f.jump(target)),
        Instruction::JumpIf { target } => ask_service(
            f.drop(1),
            Service::BoolVal { obj: f.top() },
            After::JumpWhen { target, when: true },
        ),
        Instruction::JumpIfFalse { target } => ask_service(
            f.drop(1),
            Service::BoolVal { obj: f.top() },
            After::JumpWhen { target, when: false },
        ),
        Instruction::Raise { argc } => raise_object(f.drop(1), f.top()),
        Instruction::Break => unwind_loop(f, LoopJump::Break),
        Instruction::Continue => unwind_loop(f, LoopJump::Continue),
        Instruction::Pass => go_on(f),
        Instruction::PrintExpr => if f.top().payload is NoneValue {
            go_on(f.drop(1))
        } else {
            ask_service(f.drop(1), Service::ToRepr { obj: f.top() }, After::PrintRepr)
        },
        Instruction::LoadBuildClass => ask_service(f, Service::BuildClass, After::Push),
        Instruction::StoreLocals => ask_service(
            f.drop(1),
            Service::SetScopeLocals { scope: f.locals, locals: f.top() },
            After::Discard,
        ),
        Instruction::UnpackSequence { size } => ask_service(
            f.drop(1),
            Service::ExtractElements { obj: f.top() },
            After::UnpackSequence { size },
        ),
        Instruction::UnpackEx { before, after } => ask_service(
            f.drop(1),
            Service::ExtractElements { obj: f.top() },
            After::UnpackEx { before, after },
        ),
        Instruction::Unpack => ask_service(
            f.drop(1),
            Service::ExtractElements { obj: f.top() },
            After::Unpack,
        ),
        Instruction::FormatValue { conversion, spec } => format_value(f, conversion, spec),
    }
}

/// Whether there is a next instruction and the frame can execute it.
pub open spec fn can_start(f: FrameView) -> bool {
    &&& 0 <= f.lasti < f.code.instructions@.len()
    &&& can_execute(f.fetched(), f.code.instructions@[f.lasti])
}

/// How the next instruction starts. An import asks from `directory`.
pub open spec fn start(f: FrameView, directory: String) -> Outcome {
    execute(f.fetched(), f.code.instructions@[f.lasti], directory)
}

// Replies.

impl After {
    /// Whether `reply` is of the kind that is waited for.
    pub open spec fn takes(self, reply: ReplyView) -> bool {
        match self {
            After::Push
            | After::Throw
            | After::Enter { .. }
            | After::PrintRepr
            | After::Format { .. }
            | After::In { .. }
            | After::NotIn { .. }
            | After::ReturnExit { .. }
            | After::LoopExit { .. }
            | After::ImportStar => reply is Value || reply is Failed,
            After::Discard => reply is Value || reply is Done || reply is Failed,
            After::Negate | After::JumpWhen { .. } => reply is Truth || reply is Failed,
            After::Advance { .. } | After::Delegate => reply is Next || reply is Failed,
            After::NoContains | After::RaiseInvalid => reply is Text,
            After::LookUp { .. }
            | After::Climb { .. }
            | After::RaiseInstance { .. }
            | After::RaiseType { .. }
            | After::RaiseSubclass { .. } => reply is Truth,
            After::Ascend { .. } | After::DeleteName { .. } => reply is Value,
            After::UnpackSequence { .. } | After::UnpackEx { .. } | After::Unpack => {
                reply is Elements || reply is Failed
            },
            After::CallEntries => reply is Entries,
            After::ImportPairs => reply is Pairs,
        }
    }
}

impl ContinuationView {
    /// Whether `reply` is of the kind that is waited for.
    pub open spec fn takes(self, reply: ReplyView) -> bool {
        match self {
            ContinuationView::After(after) => after.takes(reply),
            ContinuationView::Join { .. }
            | ContinuationView::CallName { .. }
            | ContinuationView::ImportName { .. } => reply is Text,
            ContinuationView::Gather { .. }
            | ContinuationView::CallNames { .. }
            | ContinuationView::CallElements { .. } => reply is Elements || reply is Failed,
            ContinuationView::StartSet { .. }
            | ContinuationView::StartMap { .. }
            | ContinuationView::UnpackFirst { .. } => reply is Value,
            ContinuationView::FillSet { .. } => reply is Value || reply is Failed,
            ContinuationView::FillMap { .. } | ContinuationView::ImportNext { .. } => {
                reply is Done
            },
            ContinuationView::MapPairs { .. } => reply is Pairs,
        }
    }
}

/// Whether the stack, the blocks and the labels are such that the instruction can go on with the
/// reply, of a kind that is waited for.
pub open spec fn can_go_on(f: FrameView, resume: ContinuationView, reply: ReplyView) -> bool {
    let n = f.stack.len();
    match (resume, reply) {
        (
            ContinuationView::After(After::JumpWhen { target, when }),
            ReplyView::Truth(truth),
        ) => truth == when ==> f.has_label(target),
        (
            ContinuationView::After(After::Advance { target }),
            ReplyView::Next(next),
        ) => next is None ==> n >= 1 && f.has_label(target),
        (ContinuationView::After(After::Advance { .. }), _) => n >= 1,
        (ContinuationView::After(After::Delegate), ReplyView::Next(next)) => match next {
            Some(_) => f.lasti >= 1,
            None => n >= 1,
        },
        (
            ContinuationView::After(After::UnpackEx { before, after }),
            ReplyView::Elements(_),
        ) => before + after <= usize::MAX,
        (ContinuationView::After(After::LoopExit { jump }), _) => {
            &&& reply is Value
            &&& f.blocks.len() > 0
            &&& can_unwind_loop(f.pop_block(), jump)
        },
        (ContinuationView::After(After::CallEntries), _) => n >= 1,
        (
            ContinuationView::CallNames { .. },
            ReplyView::Elements(elements),
        ) => elements.len() == 0 ==> n >= 1,
        (ContinuationView::CallName { rest, .. }, _) => rest.len() == 0 ==> n >= 1,
        (ContinuationView::CallElements { .. }, ReplyView::Elements(_)) => n >= 1,
        _ => true,
    }
}

/// Whether the instruction can go on with the reply.
pub open spec fn can_resume(f: FrameView, resume: ContinuationView, reply: ReplyView) -> bool {
    resume.takes(reply) && can_go_on(f, resume, reply)
}

/// Pushes the elements between the first `before` and the last `after` ones as a list, those
/// behind it below the list and those before it above the list, with the first topmost.
pub open spec fn unpack_ex(
    f: FrameView,
    before: int,
    after: int,
    elements: Seq<PyObjectRef>,
) -> Outcome {
    let n = elements.len();
    if n < before + after {
        ask_exception(
            f,
            ExceptionClass::ValueError,
            not_enough((before + after) as nat, n),
        )
    } else {
        ask(
            f.push_reversed(elements.skip(n - after)),
            RequestView::NewList { elements: elements.subrange(before, n - after) },
            ContinuationView::UnpackFirst { first: elements.take(before) },
        )
    }
}

/// How an instruction goes on, in a frame that can go on with the reply, where nothing failed.
pub open spec fn resume_after(f: FrameView, after: After, reply: ReplyView) -> Outcome {
    match after {
        After::Push => go_on(f.push(reply->Value_0)),
        After::Discard => go_on(f),
        After::Throw => raise(f, reply->Value_0),
        After::Negate => new_bool(f, !reply->Truth_0),
        After::JumpWhen { target, when } => if reply->Truth_0 == when {
            go_on(f.jump(target))
        } else {
            go_on(f)
        },
        After::Advance { target } => match reply->Next_0 {
            Some(value) => go_on(f.push(value)),
            None => go_on(f.drop(1).jump(target)),
        },
        After::Delegate => match reply->Next_0 {
            Some(value) => (
                FrameView { lasti: f.lasti - 1, ..f },
                StepView::Finished(Ok(Some(ExecutionResult::Yield(value)))),
            ),
            None => go_on(f.drop(1)),
        },
        After::Enter { end, context_manager } => go_on(
            f.push_block(BlockType::With { end, context_manager }).push(reply->Value_0),
        ),
        After::PrintRepr => ask_service(f, Service::Print { obj: reply->Value_0 }, After::Discard),
        After::Format { spec } => ask_method(
            f,
            reply->Value_0,
            Method::Format,
            seq![Operand::Str(spec)],
            After::Push,
        ),
        After::In { .. } => go_on(f.push(reply->Value_0)),
        After::NotIn { .. } => ask_query(
            f,
            Query::BoolValue { obj: reply->Value_0 },
            After::Negate,
        ),
        After::NoContains => ask_exception(
            f,
            ExceptionClass::TypeError,
            no_contains(reply->Text_0@),
        ),
        After::LookUp { scope, name } => if reply->Truth_0 {
            ask_query(f, Query::ScopeItem { scope, name }, After::Push)
        } else {
            ask_query(f, Query::ScopeHasParent { scope }, After::Climb { scope, name })
        },
        After::Climb { scope, name } => if reply->Truth_0 {
            ask_query(f, Query::ScopeParent { scope }, After::Ascend { name })
        } else {
            ask_exception(f, ExceptionClass::NameError, not_defined(name@))
        },
        After::Ascend { name } => look_up(f, reply->Value_0, name),
        After::DeleteName { name } => ask_method(
            f,
            reply->Value_0,
            Method::DelItem,
            seq![Operand::Str(name)],
            After::Discard,
        ),
        After::RaiseInstance { exc } => if reply->Truth_0 {
            raise(f, exc)
        } else {
            ask_query(
                f,
                Query::IsInstance { obj: exc, class: Class::Type },
                After::RaiseType { exc },
            )
        },
        After::RaiseType { exc } => if reply->Truth_0 {
            ask_query(
                f,
                Query::IsSubclass { obj: exc, class: Class::BaseException },
                After::RaiseSubclass { exc },
            )
        } else {
            ask_query(f, Query::Display { obj: exc }, After::RaiseInvalid)
        },
        After::RaiseSubclass { exc } => if reply->Truth_0 {
            ask_service(f, Service::EmptyException { class: exc }, After::Throw)
        } else {
            ask_query(f, Query::Display { obj: exc }, After::RaiseInvalid)
        },
        After::RaiseInvalid => ask_exception(
            f,
            ExceptionClass::TypeError,
            not_an_exception(reply->Text_0@),
        ),
        After::UnpackSequence { size } => if reply->Elements_0.len() != size {
            ask_exception(f, ExceptionClass::ValueError, wrong_number())
        } else {
            go_on(f.push_reversed(reply->Elements_0))
        },
        After::UnpackEx { before, after } => unpack_ex(
            f,
            before as int,
            after as int,
            reply->Elements_0,
        ),
        After::Unpack => go_on(f.push_reversed(reply->Elements_0)),
        After::ReturnExit { value } => unwind_blocks(f, value),
        After::LoopExit { jump } => unwind_loop(f.pop_block(), jump),
        After::CallEntries => invoke_elements(
            f,
            reply->Entries_0.map_values(
                |entry: (String, (PyObjectRef, PyObjectRef))| (entry.0, entry.1.1),
            ),
        ),
        After::ImportStar => ask_query(
            f,
            Query::KeyValuePairs { obj: reply->Value_0 },
            After::ImportPairs,
        ),
        After::ImportPairs => store_names(f, reply->Pairs_0.reverse()),
    }
}

/// How an instruction goes on with a failure.
pub open spec fn resume_failed(f: FrameView, resume: ContinuationView, exc: PyObjectRef) -> Outcome {
    match resume {
        ContinuationView::After(After::Advance { .. }) => raise(f.drop(1), exc),
        ContinuationView::After(After::In { haystack }) => ask_query(
            f,
            Query::TypeName { obj: haystack },
            After::NoContains,
        ),
        ContinuationView::After(After::NotIn { haystack }) => ask_query(
            f,
            Query::TypeName { obj: haystack },
            After::NoContains,
        ),
        _ => raise(f, exc),
    }
}

/// How an instruction goes on, in a frame that can go on with the reply.
pub open spec fn resume(f: FrameView, resume: ContinuationView, reply: ReplyView) -> Outcome {
    if reply is Failed {
        resume_failed(f, resume, reply->Failed_0)
    } else {
        match resume {
            ContinuationView::After(after) => resume_after(f, after, reply),
            ContinuationView::Join { text, rest } => join(f, text + reply->Text_0@, rest),
            ContinuationView::Gather { kind, elements, rest } => gather(
                f,
                kind,
                elements + reply->Elements_0,
                rest,
            ),
            ContinuationView::StartSet { elements } => fill_set(
                f,
                reply->Value_0,
                elements.reverse(),
            ),
            ContinuationView::FillSet { set, rest } => fill_set(f, set, rest),
            ContinuationView::StartMap { pairs, dicts } => fill_map(
                f,
                reply->Value_0,
                pairs,
                dicts,
            ),
            ContinuationView::FillMap { map, pairs, dicts } => fill_map(f, map, pairs, dicts),
            ContinuationView::MapPairs { map, dicts } => fill_map(
                f,
                map,
                reply->Pairs_0.reverse(),
                dicts,
            ),
            ContinuationView::CallNames { args } => invoke_named(
                f,
                args,
                seq![],
                reply->Elements_0.reverse(),
            ),
            ContinuationView::CallName { args, names, rest } => invoke_named(
                f,
                args,
                names.push(reply->Text_0),
                rest,
            ),
            ContinuationView::CallElements { kwargs } => invoke(f, reply->Elements_0, kwargs),
            ContinuationView::UnpackFirst { first } => go_on(
                f.push(reply->Value_0).push_reversed(first),
            ),
            ContinuationView::ImportName { value, rest } => ask(
                f,
                RequestView::Service(
                    Service::SetAttr { obj: f.locals, name: reply->Text_0, value },
                ),
                ContinuationView::ImportNext { rest },
            ),
            ContinuationView::ImportNext { rest } => store_names(f, rest),
        }
    }
}

} // verus!
