//! The bytecode that a frame runs: code objects, instructions and the operators they name.

use std::collections::HashMap;
use vstd::prelude::*;

verus! {

/// The name of a place in a code object; `CodeObject::label_map` says where it lies.
pub type Label = usize;

/// A position in a source text.
#[derive(Debug, Clone, Copy, PartialEq, Eq, Structural)]
pub struct Location {
    pub row: usize,
    pub column: usize,
}

/// A compiled piece of source: instructions, the places that jumps can reach, and where each
/// instruction came from.
#[derive(Debug, Clone)]
pub struct CodeObject {
    pub instructions: Vec<Instruction>,
    /// For each label the index of the instruction that it stands for.
    pub label_map: HashMap<Label, usize>,
    /// For each instruction its place in the source.
    pub locations: Vec<Location>,
    /// The path of the source file.
    pub source_path: String,
    /// The name of the object that was compiled.
    pub obj_name: String,
}

impl CodeObject {
    /// A code object without instructions, labels or names.
    pub fn new() -> (code: CodeObject)
        ensures
            code.instructions@ == Seq::<Instruction>::empty(),
            code.label_map@ == Map::<Label, usize>::empty(),
            code.locations@ == Seq::<Location>::empty(),
            code.source_path@ == Seq::<char>::empty(),
            code.obj_name@ == Seq::<char>::empty(),
    {
        CodeObject {
            instructions: Vec::new(),
            label_map: HashMap::new(),
            locations: Vec::new(),
            source_path: String::new(),
            obj_name: String::new(),
        }
    }
}

/// One instruction of the stack machine.
#[derive(Debug, Clone)]
pub enum Instruction {
    Import { name: String, symbol: Option<String> },
    ImportStar { name: String },
    LoadName { name: String },
    StoreName { name: String },
    DeleteName { name: String },
    StoreSubscript,
    DeleteSubscript,
    LoadAttr { name: String },
    StoreAttr { name: String },
    DeleteAttr { name: String },
    LoadConst { value: Constant },
    UnaryOperation { op: UnaryOperator },
    BinaryOperation { op: BinaryOperator, inplace: bool },
    CompareOperation { op: ComparisonOperator },
    Pop,
    Rotate { amount: usize },
    Duplicate,
    GetIter,
    Pass,
    Continue,
    Break,
    Jump { target: Label },
    JumpIf { target: Label },
    JumpIfFalse { target: Label },
    MakeFunction { flags: FunctionOpArg },
    CallFunction { typ: CallType },
    ForIter { target: Label },
    ReturnValue,
    YieldValue,
    YieldFrom,
    SetupLoop { start: Label, end: Label },
    SetupExcept { handler: Label },
    SetupWith { end: Label },
    CleanupWith { end: Label },
    PopBlock,
    Raise { argc: usize },
    BuildString { size: usize },
    BuildTuple { size: usize, unpack: bool },
    BuildList { size: usize, unpack: bool },
    BuildSet { size: usize, unpack: bool },
    BuildMap { size: usize, unpack: bool },
    BuildSlice { size: usize },
    ListAppend { i: usize },
    SetAdd { i: usize },
    MapAdd { i: usize },
    PrintExpr,
    LoadBuildClass,
    StoreLocals,
    UnpackSequence { size: usize },
    UnpackEx { before: usize, after: usize },
    Unpack,
    FormatValue { conversion: Option<ConversionFlag>, spec: String },
}

/// What a `MakeFunction` instruction finds on the stack besides the code and the name.
#[derive(Debug, Clone, Copy, PartialEq, Eq, Structural)]
pub struct FunctionOpArg {
    /// The default values of the parameters lie below the code.
    pub has_defaults: bool,
}

/// How the arguments of a `CallFunction` instruction lie on the stack.
#[derive(Debug, Clone, Copy, PartialEq, Eq, Structural)]
pub enum CallType {
    /// This many positional arguments.
    Positional(usize),
    /// This many arguments, and on top of them the names of those that are passed by name.
    Keyword(usize),
    /// A sequence of arguments and, where the flag is set, a dict of named ones on top of it.
    Ex(bool),
}

/// How a value is turned to text before it is formatted.
#[derive(Debug, Clone, Copy, PartialEq, Eq, Structural)]
pub enum ConversionFlag {
    Str,
    Ascii,
    Repr,
}

/// A value that is written down in the code.
#[derive(Debug)]
pub enum Constant {
    Integer { value: i32 },
    String { value: String },
    NoneValue,
}

impl Clone for Constant {
    fn clone(&self) -> (copy: Constant)
        ensures
            copy == *self,
    {
        match self {
            Constant::Integer { value } => Constant::Integer { value: *value },
            Constant::String { value } => Constant::String { value: value.clone() },
            Constant::NoneValue => Constant::NoneValue,
        }
    }
}

#[derive(Debug, Clone, Copy, PartialEq, Eq, Structural)]
pub enum BinaryOperator {
    Power,
    Multiply,
    MatrixMultiply,
    Divide,
    FloorDivide,
    Modulo,
    Add,
    Subtract,
    Subscript,
    Lshift,
    Rshift,
    And,
    Xor,
    Or,
}

#[derive(Debug, Clone, Copy, PartialEq, Eq, Structural)]
pub enum ComparisonOperator {
    Greater,
    GreaterOrEqual,
    Less,
    LessOrEqual,
    Equal,
    NotEqual,
    In,
    NotIn,
    Is,
    IsNot,
}

#[derive(Debug, Clone, Copy, PartialEq, Eq, Structural)]
pub enum UnaryOperator {
    Not,
    Invert,
    Minus,
    Plus,
}

} // verus!
