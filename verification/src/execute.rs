//! How instructions start.

use crate::bytecode::{
    BinaryOperator, CallType, ComparisonOperator, ConversionFlag, FunctionOpArg, Instruction,
    Label, UnaryOperator,
};
use crate::collect::reversed;
use crate::continuation::{
    After, Collection, Continuation, ExecutionResult, LoopJump, Step,
};
use crate::frame::{Block, BlockType, Frame};
use crate::model;
use crate::object::{PyObjectPayload, PyObjectRef};
use crate::request::{Class, ExceptionClass, Method, Operand, Operator, Query, Request, Service};
use crate::text::{directory_of, parent_directory};
use vstd::prelude::*;

verus! {

pub(crate) fn ask_query(query: Query, after: After) -> (step: Step)
    ensures
        step@ == model::query_step(query, after),
{
    Step::Ask { request: Request::Query(query), resume: Continuation::After(after) }
}

pub(crate) fn ask_service(service: Service, after: After) -> (step: Step)
    ensures
        step@ == model::service_step(service, after),
{
    Step::Ask { request: Request::Service(service), resume: Continuation::After(after) }
}

pub(crate) fn ask_method(obj: PyObjectRef, method: Method, args: Vec<Operand>, after: After) -> (step:
    Step)
    ensures
        step@ == model::method_step(obj, method, args@, after),
{
    Step::Ask {
        request: Request::CallMethod { obj, method, args },
        resume: Continuation::After(after),
    }
}

pub(crate) fn ask_exception(class: ExceptionClass, message: String) -> (step: Step)
    ensures
        step@ == model::exception_step(class, message@),
{
    Step::Ask {
        request: Request::NewException { class, message },
        resume: Continuation::After(After::Throw),
    }
}

/// The argument list of one object.
pub(crate) fn one(a: PyObjectRef) -> (args: Vec<Operand>)
    ensures
        args@ == seq![Operand::Object(a)],
{
    vec![Operand::Object(a)]
}

/// The argument list of two objects.
pub(crate) fn two(a: PyObjectRef, b: PyObjectRef) -> (args: Vec<Operand>)
    ensures
        args@ == seq![Operand::Object(a), Operand::Object(b)],
{
    vec![Operand::Object(a), Operand::Object(b)]
}

/// The argument list of one new string.
pub(crate) fn one_str(text: String) -> (args: Vec<Operand>)
    ensures
        args@ == seq![Operand::Str(text)],
{
    vec![Operand::Str(text)]
}

impl Frame {
    /// The operation of the virtual machine for an operator.
    fn binary_operator(op: BinaryOperator, inplace: bool) -> (operator: Option<Operator>)
        ensures
            operator == model::binary_operator(op, inplace),
    {
        match (op, inplace) {
            (BinaryOperator::Subtract, false) => Some(Operator::Sub),
            (BinaryOperator::Subtract, true) => Some(Operator::ISub),
            (BinaryOperator::Add, false) => Some(Operator::Add),
            (BinaryOperator::Add, true) => Some(Operator::IAdd),
            (BinaryOperator::Multiply, false) => Some(Operator::Mul),
            (BinaryOperator::Multiply, true) => Some(Operator::IMul),
            (BinaryOperator::MatrixMultiply, false) => Some(Operator::MatMul),
            (BinaryOperator::MatrixMultiply, true) => Some(Operator::IMatMul),
            (BinaryOperator::Power, false) => Some(Operator::Pow),
            (BinaryOperator::Power, true) => Some(Operator::IPow),
            (BinaryOperator::Divide, false) => Some(Operator::TrueDiv),
            (BinaryOperator::Divide, true) => Some(Operator::ITrueDiv),
            (BinaryOperator::FloorDivide, false) => Some(Operator::FloorDiv),
            (BinaryOperator::FloorDivide, true) => Some(Operator::IFloorDiv),
            (BinaryOperator::Subscript, _) => None,
            (BinaryOperator::Modulo, false) => Some(Operator::Mod),
            (BinaryOperator::Modulo, true) => Some(Operator::IMod),
            (BinaryOperator::Lshift, false) => Some(Operator::Lshift),
            (BinaryOperator::Lshift, true) => Some(Operator::ILshift),
            (BinaryOperator::Rshift, false) => Some(Operator::Rshift),
            (BinaryOperator::Rshift, true) => Some(Operator::IRshift),
            (BinaryOperator::Xor, false) => Some(Operator::Xor),
            (BinaryOperator::Xor, true) => Some(Operator::IXor),
            (BinaryOperator::Or, false) => Some(Operator::Or),
            (BinaryOperator::Or, true) => Some(Operator::IOr),
            (BinaryOperator::And, false) => Some(Operator::And),
            (BinaryOperator::And, true) => Some(Operator::IAnd),
        }
    }

    /// Applies a binary operator to the topmost two values.
    pub fn execute_binop(&mut self, op: BinaryOperator, inplace: bool) -> (step: Step)
        requires
            old(self)@.stack.len() >= 2,
            !(op == BinaryOperator::Subscript && inplace),
        ensures
            (final(self)@, step@) == model::binop(old(self)@, op, inplace),
    {
        let b = self.pop_value();
        let a = self.pop_value();
        match Self::binary_operator(op, inplace) {
            Some(op) => ask_service(Service::Binary { op, a, b }, After::Push),
            None => self.subscript(a, b),
        }
    }

    pub fn subscript(&self, a: PyObjectRef, b: PyObjectRef) -> (step: Step)
        ensures
            step@ == model::subscript(self@, a, b).1,
    {
        ask_method(a, Method::GetItem, one(b), After::Push)
    }

    /// Applies a unary operator to the topmost value.
    pub fn execute_unop(&mut self, op: UnaryOperator) -> (step: Step)
        requires
            old(self)@.stack.len() >= 1,
        ensures
            (final(self)@, step@) == model::unop(old(self)@, op),
    {
        let a = self.pop_value();
        match op {
            UnaryOperator::Minus => ask_method(a, Method::Neg, Vec::new(), After::Push),
            UnaryOperator::Plus => ask_method(a, Method::Pos, Vec::new(), After::Push),
            UnaryOperator::Invert => ask_method(a, Method::Invert, Vec::new(), After::Push),
            UnaryOperator::Not => ask_service(Service::BoolVal { obj: a }, After::Negate),
        }
    }

    /// What tells an object from all others.
    pub fn _id(&self, a: &PyObjectRef) -> (id: usize)
        ensures
            id == a.id,
    {
        a.id
    }

    /// Asks `haystack` whether it contains `needle`.
    pub fn _membership(&self, needle: PyObjectRef, haystack: &PyObjectRef, after: After) -> (step:
        Step)
        ensures
            step@ == model::membership(self@, needle, *haystack, after).1,
    {
        ask_method(haystack.clone(), Method::Contains, one(needle), after)
    }

    pub fn _in(&self, needle: PyObjectRef, haystack: PyObjectRef) -> (step: Step)
        ensures
            step@ == model::membership(self@, needle, haystack, After::In { haystack }).1,
    {
        self._membership(needle, &haystack, After::In { haystack: haystack.clone() })
    }

    pub fn _not_in(&self, needle: PyObjectRef, haystack: PyObjectRef) -> (step: Step)
        ensures
            step@ == model::membership(self@, needle, haystack, After::NotIn { haystack }).1,
    {
        self._membership(needle, &haystack, After::NotIn { haystack: haystack.clone() })
    }

    /// Whether the two are the same object.
    pub fn _is(&self, a: &PyObjectRef, b: &PyObjectRef) -> (same: bool)
        ensures
            same == (a.id == b.id),
    {
        self._id(a) == self._id(b)
    }

    /// Asks for the object that says whether the two are different objects.
    pub fn _is_not(&self, a: &PyObjectRef, b: &PyObjectRef) -> (step: Step)
        ensures
            step@ == model::new_bool(self@, a.id != b.id).1,
    {
        let value: bool = !self._is(a, b);
        ask_service(Service::NewBool { value }, After::Push)
    }

    /// Compares the topmost two values.
    pub fn execute_compare(&mut self, op: ComparisonOperator) -> (step: Step)
        requires
            old(self)@.stack.len() >= 2,
        ensures
            (final(self)@, step@) == model::compare(old(self)@, op),
    {
        let b = self.pop_value();
        let a = self.pop_value();
        match op {
            ComparisonOperator::Equal => ask_service(
                Service::Binary { op: Operator::Eq, a, b },
                After::Push,
            ),
            ComparisonOperator::NotEqual => ask_service(
                Service::Binary { op: Operator::Ne, a, b },
                After::Push,
            ),
            ComparisonOperator::Less => ask_service(
                Service::Binary { op: Operator::Lt, a, b },
                After::Push,
            ),
            ComparisonOperator::LessOrEqual => ask_service(
                Service::Binary { op: Operator::Le, a, b },
                After::Push,
            ),
            ComparisonOperator::Greater => ask_service(
                Service::Binary { op: Operator::Gt, a, b },
                After::Push,
            ),
            ComparisonOperator::GreaterOrEqual => ask_service(
                Service::Binary { op: Operator::Ge, a, b },
                After::Push,
            ),
            ComparisonOperator::Is => {
                let value: bool = self._is(&a, &b);
                ask_service(Service::NewBool { value }, After::Push)
            },
            ComparisonOperator::IsNot => self._is_not(&a, &b),
            ComparisonOperator::In => self._in(a, b),
            ComparisonOperator::NotIn => self._not_in(a, b),
        }
    }

    /// Imports a module, or a symbol of it, that is looked for from `path`, and pushes it.
    pub fn import_from(&self, path: String, module: &String, symbol: &Option<String>) -> (step:
        Step)
        ensures
            step@ == model::service_step(
                (Service::Import { path, module: *module, symbol: *symbol }),
                After::Push,
            ),
    {
        let symbol: Option<String> = match symbol {
            Some(name) => Some(name.clone()),
            None => None,
        };
        ask_service(Service::Import { path, module: module.clone(), symbol }, After::Push)
    }

    /// Imports a module, or a symbol of it, that is looked for from the directory of the source
    /// file, and pushes it.
    pub fn import(&self, module: &String, symbol: &Option<String>) -> (step: Step)
        ensures
            step@.imports_from() is Some,
            directory_of(self@.code.source_path@, (step@.imports_from()->0)@),
            step@ == model::execute(
                self@,
                Instruction::Import { name: *module, symbol: *symbol },
                step@.imports_from()->0,
            ).1,
    {
        self.import_from(parent_directory(&self.code.source_path), module, symbol)
    }

    /// Imports a module that is looked for from `path` and stores all names that it holds.
    pub fn import_star_from(&self, path: String, module: &String) -> (step: Step)
        ensures
            step@ == model::service_step(
                (Service::ImportModule { path, module: *module }),
                After::ImportStar,
            ),
    {
        ask_service(Service::ImportModule { path, module: module.clone() }, After::ImportStar)
    }

    /// Imports a module that is looked for from the directory of the source file and stores all
    /// names that it holds.
    pub fn import_star(&self, module: &String) -> (step: Step)
        ensures
            step@.imports_from() is Some,
            directory_of(self@.code.source_path@, (step@.imports_from()->0)@),
            step@ == model::execute(
                self@,
                Instruction::ImportStar { name: *module },
                step@.imports_from()->0,
            ).1,
    {
        self.import_star_from(parent_directory(&self.code.source_path), module)
    }

    /// Looks a name up in a scope and, if it is not there, in the scopes around it.
    pub(crate) fn look_up(&self, scope: PyObjectRef, name: &String) -> (step: Step)
        ensures
            step@ == model::look_up(self@, scope, *name).1,
    {
        ask_query(
            Query::ScopeContains { scope: scope.clone(), name: name.clone() },
            After::LookUp { scope, name: name.clone() },
        )
    }

    /// Pushes the value of a name.
    pub fn load_name(&self, name: &String) -> (step: Step)
        ensures
            step@ == model::look_up(self@, self.locals, *name).1,
    {
        self.look_up(self.locals.clone(), name)
    }

    /// Stores the topmost value under a name.
    pub fn store_name(&mut self, name: &String) -> (step: Step)
        requires
            old(self)@.stack.len() >= 1,
        ensures
            (final(self)@, step@) == model::store_name(old(self)@, *name),
    {
        let value = self.pop_value();
        ask_service(
            Service::SetAttr { obj: self.locals.clone(), name: name.clone(), value },
            After::Discard,
        )
    }

    /// Deletes a name.
    pub fn delete_name(&self, name: &String) -> (step: Step)
        requires
            self.locals.payload is Scope,
        ensures
            step@ == model::delete_name(self@, *name).1,
    {
        ask_query(
            Query::ScopeLocals { scope: self.locals.clone() },
            After::DeleteName { name: name.clone() },
        )
    }

    /// Puts a value under an index: the index lies on top of the object, the value below it.
    pub fn execute_store_subscript(&mut self) -> (step: Step)
        requires
            old(self)@.stack.len() >= 3,
        ensures
            (final(self)@, step@) == model::store_subscript(old(self)@),
    {
        let idx = self.pop_value();
        let obj = self.pop_value();
        let value = self.pop_value();
        ask_method(obj, Method::SetItem, two(idx, value), After::Discard)
    }

    /// Deletes what is under an index, which lies on top of the object.
    pub fn execute_delete_subscript(&mut self) -> (step: Step)
        requires
            old(self)@.stack.len() >= 2,
        ensures
            (final(self)@, step@) == model::delete_subscript(old(self)@),
    {
        let idx = self.pop_value();
        let obj = self.pop_value();
        ask_method(obj, Method::DelItem, one(idx), After::Discard)
    }

    /// Replaces the topmost value by an attribute of it.
    pub fn load_attr(&mut self, attr_name: &String) -> (step: Step)
        requires
            old(self)@.stack.len() >= 1,
        ensures
            (final(self)@, step@) == model::load_attr(old(self)@, *attr_name),
    {
        let obj = self.pop_value();
        ask_service(Service::GetAttribute { obj, name: attr_name.clone() }, After::Push)
    }

    /// Sets an attribute of the topmost value to the value below it.
    pub fn store_attr(&mut self, attr_name: &String) -> (step: Step)
        requires
            old(self)@.stack.len() >= 2,
        ensures
            (final(self)@, step@) == model::store_attr(old(self)@, *attr_name),
    {
        let obj = self.pop_value();
        let value = self.pop_value();
        ask_service(Service::SetAttr { obj, name: attr_name.clone(), value }, After::Discard)
    }

    /// Deletes an attribute of the topmost value.
    pub fn delete_attr(&mut self, attr_name: &String) -> (step: Step)
        requires
            old(self)@.stack.len() >= 1,
        ensures
            (final(self)@, step@) == model::delete_attr(old(self)@, *attr_name),
    {
        let obj = self.pop_value();
        ask_service(Service::DelAttr { obj, name: attr_name.clone() }, After::Discard)
    }

    /// Moves the topmost value below the `amount - 1` values under it.
    fn rotate(&mut self, amount: usize)
        requires
            2 <= amount <= old(self)@.stack.len(),
        ensures
            final(self)@ == model::rotate(old(self)@, amount as int),
    {
        let value = self.pop_value();
        let place: usize = self.stack.len() - (amount - 1);
        self.stack.insert(place, value);
    }

    /// Calls a function.
    fn call_function(&mut self, typ: CallType) -> (step: Step)
        requires
            model::can_execute(old(self)@, Instruction::CallFunction { typ }),
        ensures
            (final(self)@, step@) == model::call_function(old(self)@, typ),
    {
        match typ {
            CallType::Positional(count) => {
                let args = self.pop_multiple(count);
                self.invoke(args, Vec::new())
            },
            CallType::Keyword(count) => {
                let names = self.pop_value();
                let args = self.pop_multiple(count);
                Step::Ask {
                    request: Request::Service(Service::ExtractElements { obj: names }),
                    resume: Continuation::CallNames { args },
                }
            },
            CallType::Ex(true) => {
                let obj = self.pop_value();
                ask_query(Query::DictEntries { obj }, After::CallEntries)
            },
            CallType::Ex(false) => self.invoke_elements(Vec::new()),
        }
    }

    /// Formats the topmost value.
    fn format_value(&mut self, conversion: &Option<ConversionFlag>, spec: &String) -> (step: Step)
        requires
            old(self)@.stack.len() >= 1,
        ensures
            (final(self)@, step@) == model::format_value(old(self)@, *conversion, *spec),
    {
        let obj = self.pop_value();
        match conversion {
            Some(ConversionFlag::Str) => ask_service(
                Service::ToStr { obj },
                After::Format { spec: spec.clone() },
            ),
            Some(ConversionFlag::Repr) => ask_service(
                Service::ToRepr { obj },
                After::Format { spec: spec.clone() },
            ),
            _ => ask_method(obj, Method::Format, one_str(spec.clone()), After::Push),
        }
    }

    /// Makes a function of the code below the topmost value, which is its name.
    fn make_function(&mut self, flags: FunctionOpArg) -> (step: Step)
        requires
            model::can_execute(old(self)@, Instruction::MakeFunction { flags }),
        ensures
            (final(self)@, step@) == model::make_function(old(self)@, flags),
    {
        let _qualified_name = self.pop_value();
        let code = self.pop_value();
        let defaults: Option<PyObjectRef> = if flags.has_defaults {
            Some(self.pop_value())
        } else {
            None
        };
        ask_service(
            Service::NewFunction { code, scope: self.locals.clone(), defaults },
            After::Push,
        )
    }

    /// Whether the locals of the frame are a scope.
    fn has_scope(&self) -> (scope: bool)
        ensures
            scope == (self.locals.payload is Scope),
    {
        match self.locals.payload {
            PyObjectPayload::Scope => true,
            _ => false,
        }
    }

    /// Whether the topmost `count` values can be bounds of a slice.
    fn has_slice_bounds(&self, count: usize) -> (bounds: bool)
        requires
            count <= self@.stack.len(),
        ensures
            bounds == (forall|i: int|
                self@.stack.len() - count <= i < self@.stack.len() ==> model::is_slice_bound(
                    #[trigger] self@.stack[i],
                )),
    {
        let len: usize = self.stack.len();
        let mut at: usize = len - count;
        while at < len
            invariant
                len == self.stack.len(),
                len - count <= at <= len,
                forall|i: int|
                    len - count <= i < at ==> model::is_slice_bound(#[trigger] self@.stack[i]),
            decreases len - at,
        {
            match &self.stack[at].payload {
                PyObjectPayload::Integer { .. } | PyObjectPayload::NoneValue => {},
                _ => {
                    assert(!model::is_slice_bound(self@.stack[at as int]));
                    return false;
                },
            }
            at = at + 1;
        }
        true
    }

    /// Whether the innermost block is that of a `with` statement that ends at `end`.
    fn in_with(&self, end: Label) -> (inside: bool)
        ensures
            inside == model::can_execute(self@, Instruction::CleanupWith { end }),
    {
        match self.current_block() {
            Some(Block { typ: BlockType::With { end: expected, .. }, .. }) => expected == end,
            _ => false,
        }
    }

    /// Whether the frame can execute an instruction.
    pub fn can_execute(&self, instruction: &Instruction) -> (can: bool)
        ensures
            can == model::can_execute(self@, *instruction),
    {
        let n: usize = self.stack.len();
        match instruction {
            Instruction::Import { .. }
            | Instruction::ImportStar { .. }
            | Instruction::LoadName { .. }
            | Instruction::LoadConst { .. }
            | Instruction::SetupLoop { .. }
            | Instruction::SetupExcept { .. }
            | Instruction::Pass
            | Instruction::LoadBuildClass => true,
            Instruction::DeleteName { .. } => self.has_scope(),
            Instruction::StoreLocals => n >= 1 && self.has_scope(),
            Instruction::StoreSubscript => n >= 3,
            Instruction::DeleteSubscript
            | Instruction::StoreAttr { .. }
            | Instruction::CompareOperation { .. }
            | Instruction::YieldFrom => n >= 2,
            Instruction::BinaryOperation { op, inplace } => n >= 2 && !(*op
                == BinaryOperator::Subscript && *inplace),
            Instruction::Rotate { amount } => 2 <= *amount && *amount <= n,
            Instruction::BuildString { size } => *size <= n,
            Instruction::BuildTuple { size, .. } => *size <= n,
            Instruction::BuildList { size, .. } => *size <= n,
            Instruction::BuildSet { size, .. } => *size <= n,
            Instruction::BuildMap { size, unpack } => if *unpack {
                *size <= n
            } else {
                *size <= n / 2
            },
            Instruction::BuildSlice { size } => (*size == 2 || *size == 3) && *size <= n
                && self.has_slice_bounds(*size),
            Instruction::ListAppend { i } => *i < n,
            Instruction::SetAdd { i } => *i < n,
            Instruction::MapAdd { i } => n >= 1 && *i < n - 1,
            Instruction::CleanupWith { end } => self.in_with(*end),
            Instruction::PopBlock => self.blocks.len() > 0,
            Instruction::MakeFunction { flags } => if flags.has_defaults {
                n >= 3
            } else {
                n >= 2
            },
            Instruction::CallFunction { typ: CallType::Positional(count) } => *count < n,
            Instruction::CallFunction { typ: CallType::Keyword(count) } => *count < n,
            Instruction::CallFunction { typ: CallType::Ex(_) } => n >= 1,
            Instruction::Jump { target } => self.has_label(*target),
            Instruction::Raise { argc } => *argc == 1 && n >= 1,
            Instruction::Break => self.can_unwind_loop(LoopJump::Break),
            Instruction::Continue => self.can_unwind_loop(LoopJump::Continue),
            Instruction::StoreName { .. }
            | Instruction::LoadAttr { .. }
            | Instruction::DeleteAttr { .. }
            | Instruction::UnaryOperation { .. }
            | Instruction::Pop
            | Instruction::Duplicate
            | Instruction::GetIter
            | Instruction::JumpIf { .. }
            | Instruction::JumpIfFalse { .. }
            | Instruction::ForIter { .. }
            | Instruction::ReturnValue
            | Instruction::YieldValue
            | Instruction::SetupWith { .. }
            | Instruction::PrintExpr
            | Instruction::UnpackSequence { .. }
            | Instruction::UnpackEx { .. }
            | Instruction::Unpack
            | Instruction::FormatValue { .. } => n >= 1,
        }
    }

    /// Starts the next instruction. An import asks from the directory of the source file.
    pub fn execute_instruction(&mut self) -> (step: Step)
        requires
            model::can_start(old(self)@),
        ensures
            (final(self)@, step@) == model::start(old(self)@, step@.imports_from()->0),
            step@.imports_from() matches Some(directory) ==> directory_of(
                old(self)@.code.source_path@,
                directory@,
            ),
    {
        let code = self.code.clone();
        let index: usize = self.lasti;
        self.fetch_instruction();
        self.execute(&code.instructions[index])
    }

    /// Starts an instruction.
    fn execute(&mut self, instruction: &Instruction) -> (step: Step)
        requires
            model::can_execute(old(self)@, *instruction),
        ensures
            (final(self)@, step@) == model::execute(
                old(self)@,
                *instruction,
                step@.imports_from()->0,
            ),
            step@.imports_from() matches Some(directory) ==> directory_of(
                old(self)@.code.source_path@,
                directory@,
            ),
    {
        match instruction {
            Instruction::LoadConst { value } => ask_service(
                Service::Constant { value: value.clone() },
                After::Push,
            ),
            Instruction::Import { name, symbol } => self.import(name, symbol),
            Instruction::ImportStar { name } => self.import_star(name),
            Instruction::LoadName { name } => self.load_name(name),
            Instruction::StoreName { name } => self.store_name(name),
            Instruction::DeleteName { name } => self.delete_name(name),
            Instruction::StoreSubscript => self.execute_store_subscript(),
            Instruction::DeleteSubscript => self.execute_delete_subscript(),
            Instruction::Pop => {
                self.pop_value();
                Step::Finished(Ok(None))
            },
            Instruction::Duplicate => {
                let value = self.last_value();
                self.push_value(value);
                Step::Finished(Ok(None))
            },
            Instruction::Rotate { amount } => {
                self.rotate(*amount);
                Step::Finished(Ok(None))
            },
            Instruction::BuildString { size } => {
                let rest = reversed(self.pop_multiple(*size));
                self.join(String::new(), rest)
            },
            Instruction::BuildList { size, unpack } => self.get_elements(
                Collection::PyList,
                *size,
                *unpack,
            ),
            Instruction::BuildSet { size, unpack } => self.get_elements(
                Collection::PySet,
                *size,
                *unpack,
            ),
            Instruction::BuildTuple { size, unpack } => self.get_elements(
                Collection::PyTuple,
                *size,
                *unpack,
            ),
            Instruction::BuildMap { size, unpack } => self.build_map(*size, *unpack),
            Instruction::BuildSlice { size } => self.build_slice(*size),
            Instruction::ListAppend { i } => {
                let list = self.nth_value(*i);
                let item = self.pop_value();
                ask_service(Service::ListAppend { list, item }, After::Discard)
            },
            Instruction::SetAdd { i } => {
                let set = self.nth_value(*i);
                let item = self.pop_value();
                ask_method(set, Method::Add, one(item), After::Discard)
            },
            Instruction::MapAdd { i } => {
                assert(*i + 1 < self.stack.len());
                let dict = self.nth_value(*i + 1);
                let key = self.pop_value();
                let value = self.pop_value();
                ask_method(dict, Method::SetItem, two(key, value), After::Discard)
            },
            Instruction::BinaryOperation { op, inplace } => self.execute_binop(*op, *inplace),
            Instruction::LoadAttr { name } => self.load_attr(name),
            Instruction::StoreAttr { name } => self.store_attr(name),
            Instruction::DeleteAttr { name } => self.delete_attr(name),
            Instruction::UnaryOperation { op } => self.execute_unop(*op),
            Instruction::CompareOperation { op } => self.execute_compare(*op),
            Instruction::ReturnValue => {
                let value = self.pop_value();
                self.unwind_blocks(value)
            },
            Instruction::YieldValue => {
                let value = self.pop_value();
                Step::Finished(Ok(Some(ExecutionResult::Yield(value))))
            },
            Instruction::YieldFrom => {
                // The value that was sent into the iterator.
                self.pop_value();
                let iterator = self.last_value();
                ask_service(Service::NextObject { iterator }, After::Delegate)
            },
            Instruction::SetupLoop { start, end } => {
                self.push_block(BlockType::Loop { start: *start, end: *end });
                Step::Finished(Ok(None))
            },
            Instruction::SetupExcept { handler } => {
                self.push_block(BlockType::TryExcept { handler: *handler });
                Step::Finished(Ok(None))
            },
            Instruction::SetupWith { end } => {
                let context_manager = self.pop_value();
                ask_method(
                    context_manager.clone(),
                    Method::Enter,
                    Vec::new(),
                    After::Enter { end: *end, context_manager },
                )
            },
            Instruction::CleanupWith { .. } => match self.pop_block() {
                Some(Block { typ: BlockType::With { context_manager, .. }, .. }) => Step::Ask {
                    request: self.with_exit(&context_manager, None),
                    resume: Continuation::After(After::Discard),
                },
                _ => vstd::pervasive::unreached(),
            },
            Instruction::PopBlock => {
                self.pop_block();
                Step::Finished(Ok(None))
            },
            Instruction::GetIter => {
                let obj = self.pop_value();
                ask_service(Service::GetIter { obj }, After::Push)
            },
            Instruction::ForIter { target } => {
                let iterator = self.last_value();
                ask_service(Service::NextObject { iterator }, After::Advance { target: *target })
            },
            Instruction::MakeFunction { flags } => self.make_function(*flags),
            Instruction::CallFunction { typ } => self.call_function(*typ),
            Instruction::Jump { target } => {
                self.jump(*target);
                Step::Finished(Ok(None))
            },
            Instruction::JumpIf { target } => {
                let obj = self.pop_value();
                ask_service(
                    Service::BoolVal { obj },
                    After::JumpWhen { target: *target, when: true },
                )
            },
            Instruction::JumpIfFalse { target } => {
                let obj = self.pop_value();
                ask_service(
                    Service::BoolVal { obj },
                    After::JumpWhen { target: *target, when: false },
                )
            },
            Instruction::Raise { .. } => {
                let exc = self.pop_value();
                ask_query(
                    Query::IsInstance { obj: exc.clone(), class: Class::BaseException },
                    After::RaiseInstance { exc },
                )
            },
            Instruction::Break => self.unwind_loop(LoopJump::Break),
            Instruction::Continue => self.unwind_loop(LoopJump::Continue),
            Instruction::Pass => Step::Finished(Ok(None)),
            Instruction::PrintExpr => {
                let obj = self.pop_value();
                match obj.payload {
                    PyObjectPayload::NoneValue => Step::Finished(Ok(None)),
                    _ => ask_service(Service::ToRepr { obj }, After::PrintRepr),
                }
            },
            Instruction::LoadBuildClass => ask_service(Service::BuildClass, After::Push),
            Instruction::StoreLocals => {
                let locals = self.pop_value();
                ask_service(
                    Service::SetScopeLocals { scope: self.locals.clone(), locals },
                    After::Discard,
                )
            },
            Instruction::UnpackSequence { size } => {
                let obj = self.pop_value();
                ask_service(
                    Service::ExtractElements { obj },
                    After::UnpackSequence { size: *size },
                )
            },
            Instruction::UnpackEx { before, after } => {
                let obj = self.pop_value();
                ask_service(
                    Service::ExtractElements { obj },
                    After::UnpackEx { before: *before, after: *after },
                )
            },
            Instruction::Unpack => {
                let obj = self.pop_value();
                ask_service(Service::ExtractElements { obj }, After::Unpack)
            },
            Instruction::FormatValue { conversion, spec } => self.format_value(conversion, spec),
        }
    }
}

} // verus!
