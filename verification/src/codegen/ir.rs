//! The intermediate representation that programs are lowered to.
//!
//! A module is a list of steps. Each step stands in a block of a function; a value that a
//! step makes is named by the index of the step. Types are entries of a table, in which
//! equal types are one entry.
use vstd::prelude::*;

verus! {

/// A type. Inner types are indices into the table of types.
#[derive(Debug, Clone, Copy, PartialEq, Eq, Structural)]
pub enum TyDef {
    /// An integer of so many bits.
    Int(u32),
    F32,
    F64,
    Ptr,
    /// Elements and their number.
    Array(usize, u64),
    /// A struct without fields.
    Nil,
    /// A struct with a first field, and the struct of the others.
    Cons(usize, usize),
    /// A declared struct, class or enum.
    Named(usize),
}

/// The entries that every table of types starts with.
pub const I1: usize = 0;

pub const I8: usize = 1;

pub const I32: usize = 2;

pub const I64: usize = 3;

pub const PTR: usize = 4;

pub const F32: usize = 5;

pub const F64: usize = 6;

pub const NIL: usize = 7;

/// A value.
#[derive(Debug, Clone, Copy, PartialEq, Eq, Structural)]
pub enum Val {
    Int(i64),
    /// The digits of a floating-point number, in the table of texts.
    Float(usize),
    Null,
    /// All bits zero.
    Zero,
    Undef,
    /// What a step made.
    Reg(usize),
    /// The address of a string, in the table of texts.
    Text(usize),
    Func(usize),
    Global(usize),
    /// A parameter of the current function.
    Arg(usize),
}

/// A value with its type.
#[derive(Debug, Clone, Copy, PartialEq, Eq, Structural)]
pub struct Operand {
    pub val: Val,
    pub ty: usize,
}

#[derive(Debug, Clone, Copy, PartialEq, Eq, Structural)]
pub enum Arith {
    Add,
    Sub,
    Mul,
    Div,
    Rem,
    And,
    Or,
    Xor,
    Shl,
    Shr,
}

/// A comparison; `Below` takes its operands as unsigned.
#[derive(Debug, Clone, Copy, PartialEq, Eq, Structural)]
pub enum Pred {
    Same,
    Differ,
    Less,
    LessOrSame,
    Greater,
    GreaterOrSame,
    Below,
}

#[derive(Debug, Clone, Copy, PartialEq, Eq, Structural)]
pub enum Cast {
    Trunc,
    Sext,
    Zext,
    IntToPtr,
    PtrToInt,
}

/// The functions of the C library that lowered code calls.
#[derive(Debug, Clone, Copy, PartialEq, Eq, Structural)]
pub enum Runtime {
    Puts,
    Printf,
    Abort,
    Strcat,
    Sprintf,
    Strdup,
    Strcmp,
    Strlen,
}

/// What a step does.
#[derive(Debug, Clone, Copy, PartialEq, Eq, Structural)]
pub enum Op {
    /// Memory for a value of a type, made at the start of the function.
    Slot(usize),
    /// Memory for a value of a type, made here.
    Temp(usize),
    Load(Val, usize),
    Store(Val, Operand),
    /// The address of a field: struct type, address, index.
    Field(usize, Val, u32),
    /// The address of an element: array type, address, index.
    Elem(usize, Val, Operand),
    /// The address so many elements on: element type, address, number.
    Offset(usize, Val, Operand),
    Arith(Arith, Operand, Operand),
    Compare(Pred, Operand, Operand),
    Convert(Cast, Operand, usize),
    IsNull(Operand),
    /// The second operand where the first holds, else the third.
    Select(Operand, Operand, Operand),
    Insert(Operand, Operand, u32),
    Extract(Operand, u32),
    /// A struct of the last so many arguments.
    Pack(usize),
    /// An argument of a call or struct that follows.
    Push(Operand),
    /// A call with the last so many arguments.
    Call(usize, usize),
    CallValue(Operand, usize),
    CallRuntime(Runtime, usize),
    /// The first operand where control came from the first block, else the second.
    Merge(Operand, usize, Operand, usize),
    Jump(usize),
    Branch(Operand, usize, usize),
    Return(Operand),
    ReturnVoid,
    Unreachable,
}

#[derive(Debug, Clone, Copy, PartialEq, Eq, Structural)]
pub struct Step {
    pub block: usize,
    pub op: Op,
}

/// What a block is for.
#[derive(Debug, Clone, Copy, PartialEq, Eq, Structural)]
pub enum Label {
    Entry,
    Dead,
    IfThen,
    IfElse,
    IfMerge,
    WhileCond,
    WhileBody,
    WhileExit,
    LoopHeader,
    LoopBody,
    LoopExit,
    ForCond,
    ForBody,
    ForInc,
    ForExit,
    AssertOk,
    AssertFail,
    TrapOk,
    TrapFail,
    PushOk,
    PushFail,
    CondThen,
    CondElse,
    CondMerge,
    NullableThen,
    NullableElse,
    NullableMerge,
    ContainsLoop,
    ContainsBody,
    ContainsExit,
    SearchLoop,
    SearchBody,
    SearchHit,
    SearchNext,
    SearchExit,
    MapHit,
    MapMiss,
    MapMerge,
    MapOk,
    MapFail,
    MatchMerge,
    MatchArm(usize),
    MatchNext(usize),
    MatchGuard(usize),
}

/// A block of a function.
#[derive(Debug, Clone, Copy, PartialEq, Eq, Structural)]
pub struct BlockInfo {
    pub func: usize,
    pub label: Label,
}

/// A function: its result, and its parameters in the table of parameters.
#[derive(Debug, Clone, Copy, PartialEq, Eq, Structural)]
pub struct FuncInfo {
    /// `None` where it returns nothing.
    pub ret: Option<usize>,
    /// It takes further arguments in the manner of C.
    pub c_varargs: bool,
    /// Calls convert their arguments to the types of the parameters, may name them, and gather them.
    pub converts: bool,
    pub first: usize,
    pub count: usize,
}

/// A parameter. `elem` is the element type where arguments are gathered in an array.
#[derive(Debug, Clone, Copy, PartialEq, Eq, Structural)]
pub struct ParamInfo {
    /// Its type, where it is passed as a value of its own.
    pub ty: Option<usize>,
    pub elem: Option<usize>,
    pub is_variadic: bool,
}

#[derive(Debug, Clone, Copy, PartialEq, Eq, Structural)]
pub struct FieldInfo {
    pub layout: usize,
    pub index: u32,
    pub ty: usize,
}

#[derive(Debug, Clone, Copy, PartialEq, Eq, Structural)]
pub struct TagInfo {
    pub layout: usize,
    pub tag: u32,
}

#[derive(Debug, Clone, Copy, PartialEq, Eq, Structural)]
pub enum MemberKind {
    Method,
    Constructor,
    Destructor,
    Getter,
    Setter,
    Operator,
}

#[derive(Debug, Clone, Copy, PartialEq, Eq, Structural)]
pub struct Member {
    pub layout: usize,
    pub kind: MemberKind,
    pub func: usize,
    pub params: usize,
}

#[derive(Debug, Clone, Copy, PartialEq, Eq, Structural)]
pub struct GlobalInfo {
    pub ty: usize,
    pub is_constant: bool,
    /// The first of its initial values, and their number, in the table of constants: the
    /// elements of a list, or one value.
    pub first: usize,
    pub count: usize,
    /// The length that a vector or map starts with.
    pub len: u64,
    pub form: GlobalForm,
}

/// How the initial value of a global is given.
#[derive(Debug, Clone, Copy, PartialEq, Eq, Structural)]
pub enum GlobalForm {
    /// Defined elsewhere.
    Foreign,
    Zero,
    /// One constant.
    Single,
    /// The elements of an array.
    Elements,
    /// The elements of a vector and its length.
    Vector,
    /// Keys and values in turn, and the length of a map.
    Mapping,
}

/// A loop: where `continue` and `break` go, and how many scopes are around it.
#[derive(Debug, Clone, Copy, PartialEq, Eq, Structural)]
pub struct LoopInfo {
    pub again: usize,
    pub exit: usize,
    pub depth: usize,
}

/// What is known of the type of an expression.
#[derive(Debug, Clone, Copy, PartialEq, Eq, Structural)]
pub enum Guess {
    Int,
    Bool,
    Double,
    Str,
    Char,
    Any,
    Pointer,
    List,
    Vector,
    Mapping,
    Tuple,
    Struct(usize),
    Enum(usize),
}

/// The families of collections that have methods of their own.
#[derive(Debug, Clone, Copy, PartialEq, Eq, Structural)]
pub enum Family {
    Vector,
    Array,
    Mapping,
    Str,
}

} // verus!
