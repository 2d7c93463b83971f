//! What a frame asks of the virtual machine, and what the virtual machine answers.
//!
//! A frame never touches the contents of objects itself. Where an instruction needs an object
//! made, read, changed or called, the frame hands out a `Request` and goes on when the `Reply` is
//! there.

use crate::bytecode::Constant;
use crate::object::PyObjectRef;
use num_bigint::BigInt;
use vstd::prelude::*;

verus! {

/// The special methods that instructions call.
#[derive(Debug, Clone, Copy, PartialEq, Eq, Structural)]
pub enum Method {
    Enter,
    Exit,
    Add,
    GetItem,
    SetItem,
    DelItem,
    Neg,
    Pos,
    Invert,
    Contains,
    Format,
}

impl Method {
    /// The name under which the method is looked up.
    pub open spec fn spec_name(self) -> Seq<char> {
        match self {
            Method::Enter => "__enter__"@,
            Method::Exit => "__exit__"@,
            Method::Add => "add"@,
            Method::GetItem => "__getitem__"@,
            Method::SetItem => "__setitem__"@,
            Method::DelItem => "__delitem__"@,
            Method::Neg => "__neg__"@,
            Method::Pos => "__pos__"@,
            Method::Invert => "__invert__"@,
            Method::Contains => "__contains__"@,
            Method::Format => "__format__"@,
        }
    }

    pub fn name(self) -> (name: &'static str)
        ensures
            name@ == self.spec_name(),
    {
        match self {
            Method::Enter => "__enter__",
            Method::Exit => "__exit__",
            Method::Add => "add",
            Method::GetItem => "__getitem__",
            Method::SetItem => "__setitem__",
            Method::DelItem => "__delitem__",
            Method::Neg => "__neg__",
            Method::Pos => "__pos__",
            Method::Invert => "__invert__",
            Method::Contains => "__contains__",
            Method::Format => "__format__",
        }
    }
}

/// Methods are looked up under the names that the language gives them.
pub proof fn methods_have_their_names()
    ensures
        Method::Enter.spec_name() == "__enter__"@,
        Method::Exit.spec_name() == "__exit__"@,
        Method::Add.spec_name() == "add"@,
        Method::GetItem.spec_name() == "__getitem__"@,
        Method::SetItem.spec_name() == "__setitem__"@,
        Method::DelItem.spec_name() == "__delitem__"@,
        Method::Neg.spec_name() == "__neg__"@,
        Method::Pos.spec_name() == "__pos__"@,
        Method::Invert.spec_name() == "__invert__"@,
        Method::Contains.spec_name() == "__contains__"@,
        Method::Format.spec_name() == "__format__"@,
{
}

/// The operations of the virtual machine on two objects. Those that start with `I` are the ones
/// of augmented assignment, which may change the first object.
#[derive(Debug, Clone, Copy, PartialEq, Eq, Structural)]
pub enum Operator {
    Sub,
    ISub,
    Add,
    IAdd,
    Mul,
    IMul,
    MatMul,
    IMatMul,
    Pow,
    IPow,
    TrueDiv,
    ITrueDiv,
    FloorDiv,
    IFloorDiv,
    Mod,
    IMod,
    Lshift,
    ILshift,
    Rshift,
    IRshift,
    Xor,
    IXor,
    Or,
    IOr,
    And,
    IAnd,
    Eq,
    Ne,
    Lt,
    Le,
    Gt,
    Ge,
}

/// The classes that a frame tests objects against.
#[derive(Debug, Clone, Copy, PartialEq, Eq, Structural)]
pub enum Class {
    BaseException,
    Type,
}

/// The classes of the exceptions that a frame makes.
#[derive(Debug, Clone, Copy, PartialEq, Eq, Structural)]
pub enum ExceptionClass {
    NameError,
    TypeError,
    ValueError,
}

/// An argument of a method call.
#[derive(Debug)]
pub enum Operand {
    Object(PyObjectRef),
    /// The type of the object.
    TypeOf(PyObjectRef),
    /// The object `None`.
    NoneObject,
    /// A new string object.
    Str(String),
}

/// Reads an object. The answer always comes: no exception is raised.
#[derive(Debug)]
pub enum Query {
    /// The text of a string object; answered by `Reply::Text`.
    StrValue { obj: PyObjectRef },
    /// The truth value of a bool object; answered by `Reply::Truth`.
    BoolValue { obj: PyObjectRef },
    /// The object as it is shown to a user; answered by `Reply::Text`.
    Display { obj: PyObjectRef },
    /// The name of the type of the object; answered by `Reply::Text`.
    TypeName { obj: PyObjectRef },
    /// The names of a module with their values; answered by `Reply::Pairs`.
    KeyValuePairs { obj: PyObjectRef },
    /// The keys and values of a dict; answered by `Reply::Pairs`.
    DictPairs { obj: PyObjectRef },
    /// The entries of a dict whose keys are strings; answered by `Reply::Entries`.
    DictEntries { obj: PyObjectRef },
    /// Answered by `Reply::Truth`.
    IsInstance { obj: PyObjectRef, class: Class },
    /// Answered by `Reply::Truth`.
    IsSubclass { obj: PyObjectRef, class: Class },
    /// Whether a scope itself holds a name; answered by `Reply::Truth`.
    ScopeContains { scope: PyObjectRef, name: String },
    /// The value of a name that the scope holds; answered by `Reply::Value`.
    ScopeItem { scope: PyObjectRef, name: String },
    /// Answered by `Reply::Truth`.
    ScopeHasParent { scope: PyObjectRef },
    /// Answered by `Reply::Value`.
    ScopeParent { scope: PyObjectRef },
    /// The dict of a scope's names; answered by `Reply::Value`.
    ScopeLocals { scope: PyObjectRef },
}

/// An operation of the virtual machine.
#[derive(Debug)]
pub enum Service {
    /// The object for a constant; answered by `Reply::Value`.
    Constant { value: Constant },
    /// Answered by `Reply::Value`.
    NewBool { value: bool },
    /// A new empty set; answered by `Reply::Value`.
    NewSet,
    /// A new empty dict; answered by `Reply::Value`.
    NewDict,
    /// Answered by `Reply::Value`.
    NewSlice { start: Option<BigInt>, stop: Option<BigInt>, step: Option<BigInt> },
    /// A function; without `defaults` its defaults are the object `None`. Answered by
    /// `Reply::Value`.
    NewFunction { code: PyObjectRef, scope: PyObjectRef, defaults: Option<PyObjectRef> },
    /// The builtin function that makes classes; answered by `Reply::Value`.
    BuildClass,
    /// A traceback entry, which is a tuple of a string, an integer and a string; answered by
    /// `Reply::Value`.
    NewPosition { filename: String, row: usize, name: String },
    /// An exception of this class without arguments; answered by `Reply::Value` or
    /// `Reply::Failed`.
    EmptyException { class: PyObjectRef },
    /// Makes `locals` the dict of the scope; answered by `Reply::Done`.
    SetScopeLocals { scope: PyObjectRef, locals: PyObjectRef },
    /// Answered by `Reply::Value` or `Reply::Failed`.
    Binary { op: Operator, a: PyObjectRef, b: PyObjectRef },
    /// The elements of a sequence; answered by `Reply::Elements` or `Reply::Failed`.
    ExtractElements { obj: PyObjectRef },
    /// Answered by `Reply::Value` or `Reply::Failed`.
    GetIter { obj: PyObjectRef },
    /// Answered by `Reply::Next` or `Reply::Failed`.
    NextObject { iterator: PyObjectRef },
    /// The truth value of any object; answered by `Reply::Truth` or `Reply::Failed`.
    BoolVal { obj: PyObjectRef },
    /// Answered by `Reply::Value` or `Reply::Failed`.
    ToStr { obj: PyObjectRef },
    /// Answered by `Reply::Value` or `Reply::Failed`.
    ToRepr { obj: PyObjectRef },
    /// Prints a string object; answered by `Reply::Value` or `Reply::Failed`.
    Print { obj: PyObjectRef },
    /// Answered by `Reply::Value` or `Reply::Failed`.
    GetAttribute { obj: PyObjectRef, name: String },
    /// The attribute `__traceback__`; answered by `Reply::Value` or `Reply::Failed`.
    GetTraceback { exc: PyObjectRef },
    /// Answered by `Reply::Done`.
    SetAttr { obj: PyObjectRef, name: String, value: PyObjectRef },
    /// Answered by `Reply::Value` or `Reply::Failed`.
    DelAttr { obj: PyObjectRef, name: String },
    /// Answered by `Reply::Value` or `Reply::Failed`.
    ListAppend { list: PyObjectRef, item: PyObjectRef },
    /// Puts an entry into a dict; answered by `Reply::Done`.
    SetItem { map: PyObjectRef, key: PyObjectRef, value: PyObjectRef },
    /// A module, or the symbol of it, that is looked for from `path`; answered by `Reply::Value`
    /// or `Reply::Failed`.
    Import { path: String, module: String, symbol: Option<String> },
    /// A module that is looked for from `path`; answered by `Reply::Value` or `Reply::Failed`.
    ImportModule { path: String, module: String },
}

/// What a frame asks of the virtual machine.
#[derive(Debug)]
pub enum Request {
    Query(Query),
    Service(Service),
    /// Answered by `Reply::Value` or `Reply::Failed`.
    CallMethod { obj: PyObjectRef, method: Method, args: Vec<Operand> },
    /// Calls `func`; answered by `Reply::Value` or `Reply::Failed`.
    Invoke { func: PyObjectRef, args: Vec<PyObjectRef>, kwargs: Vec<(String, PyObjectRef)> },
    /// Calls `func`, where some of the arguments are passed by these names; answered by
    /// `Reply::Value` or `Reply::Failed`.
    InvokeNamed { func: PyObjectRef, args: Vec<PyObjectRef>, names: Vec<String> },
    /// Answered by `Reply::Value`.
    NewStr { value: String },
    /// Answered by `Reply::Value`.
    NewList { elements: Vec<PyObjectRef> },
    /// Answered by `Reply::Value`.
    NewTuple { elements: Vec<PyObjectRef> },
    /// Answered by `Reply::Value`.
    NewException { class: ExceptionClass, message: String },
}

/// A `Request` as contracts see it.
#[verifier::ext_equal]
pub enum RequestView {
    Query(Query),
    Service(Service),
    CallMethod { obj: PyObjectRef, method: Method, args: Seq<Operand> },
    Invoke { func: PyObjectRef, args: Seq<PyObjectRef>, kwargs: Seq<(String, PyObjectRef)> },
    InvokeNamed { func: PyObjectRef, args: Seq<PyObjectRef>, names: Seq<String> },
    NewStr { value: Seq<char> },
    NewList { elements: Seq<PyObjectRef> },
    NewTuple { elements: Seq<PyObjectRef> },
    NewException { class: ExceptionClass, message: Seq<char> },
}

impl View for Request {
    type V = RequestView;

    open spec fn view(&self) -> RequestView {
        match *self {
            Request::Query(query) => RequestView::Query(query),
            Request::Service(service) => RequestView::Service(service),
            Request::CallMethod { obj, method, args } => RequestView::CallMethod {
                obj,
                method,
                args: args@,
            },
            Request::Invoke { func, args, kwargs } => RequestView::Invoke {
                func,
                args: args@,
                kwargs: kwargs@,
            },
            Request::InvokeNamed { func, args, names } => RequestView::InvokeNamed {
                func,
                args: args@,
                names: names@,
            },
            Request::NewStr { value } => RequestView::NewStr { value: value@ },
            Request::NewList { elements } => RequestView::NewList { elements: elements@ },
            Request::NewTuple { elements } => RequestView::NewTuple { elements: elements@ },
            Request::NewException { class, message } => RequestView::NewException {
                class,
                message: message@,
            },
        }
    }
}

/// What the virtual machine answers.
#[derive(Debug)]
pub enum Reply {
    Value(PyObjectRef),
    /// The operation raised this exception.
    Failed(PyObjectRef),
    /// The operation is done and gives nothing back.
    Done,
    Truth(bool),
    Text(String),
    Elements(Vec<PyObjectRef>),
    Pairs(Vec<(PyObjectRef, PyObjectRef)>),
    /// For each entry the text of its key, the key and the value.
    Entries(Vec<(String, (PyObjectRef, PyObjectRef))>),
    /// The next object of an iterator, if there is one.
    Next(Option<PyObjectRef>),
}

/// A `Reply` as contracts see it.
#[verifier::ext_equal]
pub enum ReplyView {
    Value(PyObjectRef),
    Failed(PyObjectRef),
    Done,
    Truth(bool),
    Text(String),
    Elements(Seq<PyObjectRef>),
    Pairs(Seq<(PyObjectRef, PyObjectRef)>),
    Entries(Seq<(String, (PyObjectRef, PyObjectRef))>),
    Next(Option<PyObjectRef>),
}

impl View for Reply {
    type V = ReplyView;

    open spec fn view(&self) -> ReplyView {
        match *self {
            Reply::Value(value) => ReplyView::Value(value),
            Reply::Failed(exc) => ReplyView::Failed(exc),
            Reply::Done => ReplyView::Done,
            Reply::Truth(truth) => ReplyView::Truth(truth),
            Reply::Text(text) => ReplyView::Text(text),
            Reply::Elements(elements) => ReplyView::Elements(elements@),
            Reply::Pairs(pairs) => ReplyView::Pairs(pairs@),
            Reply::Entries(entries) => ReplyView::Entries(entries@),
            Reply::Next(next) => ReplyView::Next(next),
        }
    }
}

impl Query {
    /// Whether `reply` is an answer to this query.
    pub open spec fn answered_by(self, reply: ReplyView) -> bool {
        match self {
            Query::StrValue { .. } | Query::Display { .. } | Query::TypeName { .. } => reply is Text,
            Query::BoolValue { .. }
            | Query::IsInstance { .. }
            | Query::IsSubclass { .. }
            | Query::ScopeContains { .. }
            | Query::ScopeHasParent { .. } => reply is Truth,
            Query::KeyValuePairs { .. } | Query::DictPairs { .. } => reply is Pairs,
            Query::DictEntries { .. } => reply is Entries,
            Query::ScopeItem { .. } | Query::ScopeParent { .. } | Query::ScopeLocals { .. } => {
                reply is Value
            },
        }
    }
}

impl Service {
    /// Whether `reply` is an answer to this request.
    pub open spec fn answered_by(self, reply: ReplyView) -> bool {
        match self {
            Service::Constant { .. }
            | Service::NewBool { .. }
            | Service::NewSet
            | Service::NewDict
            | Service::NewSlice { .. }
            | Service::NewFunction { .. }
            | Service::BuildClass
            | Service::NewPosition { .. } => reply is Value,
            Service::SetScopeLocals { .. } | Service::SetAttr { .. } | Service::SetItem { .. } => {
                reply is Done
            },
            Service::ExtractElements { .. } => reply is Elements || reply is Failed,
            Service::NextObject { .. } => reply is Next || reply is Failed,
            Service::BoolVal { .. } => reply is Truth || reply is Failed,
            _ => reply is Value || reply is Failed,
        }
    }
}

impl RequestView {
    /// The directory from which a module is asked for; `None` if none is.
    pub open spec fn imports_from(self) -> Option<String> {
        match self {
            RequestView::Service(Service::Import { path, .. }) => Some(path),
            RequestView::Service(Service::ImportModule { path, .. }) => Some(path),
            _ => None,
        }
    }

    /// Whether `reply` is an answer to this request.
    pub open spec fn answered_by(self, reply: ReplyView) -> bool {
        match self {
            RequestView::Query(query) => query.answered_by(reply),
            RequestView::Service(service) => service.answered_by(reply),
            RequestView::CallMethod { .. }
            | RequestView::Invoke { .. }
            | RequestView::InvokeNamed { .. } => reply is Value || reply is Failed,
            RequestView::NewStr { .. }
            | RequestView::NewList { .. }
            | RequestView::NewTuple { .. }
            | RequestView::NewException { .. } => reply is Value,
        }
    }
}

} // verus!
