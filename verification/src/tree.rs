//! Syntax trees as mathematical values: names are character sequences, lists are sequences.
use vstd::prelude::*;
use crate::ast::{BinOp, ParamMode, UnaryOp, Visibility};
use crate::token::Span;

verus! {

/// A type as it is written.
pub enum Type {
    Int,
    Bool,
    Void,
    Str,
    Char,
    Float,
    Double,
    Any,
    Named(Seq<char>),
    Generic(Seq<char>, Seq<Type>),
    /// Result and parameters.
    Function(Box<Type>, Seq<Type>),
    Tuple(Seq<Type>),
    Array(Box<Type>),
    FixedArray(Box<Type>, Option<u64>),
    Vector(Box<Type>),
    /// Key and value.
    Mapping(Box<Type>, Box<Type>),
    Pointer(Box<Type>),
    Optional(Box<Type>),
}

/// A generic parameter with its bounds.
pub struct GenericParam {
    pub name: Seq<char>,
    pub bounds: Seq<Type>,
}

/// One constraint of a `where` clause.
pub struct Constraint {
    pub ty: Type,
    pub bounds: Seq<Type>,
}

/// A `where` clause.
pub struct WhereClause {
    pub constraints: Seq<Constraint>,
}

/// A parameter. `...name` has the type name `__derived__`, a bare `...` an empty name.
pub struct Param {
    pub is_variadic: bool,
    pub mode: ParamMode,
    pub ty: Type,
    pub name: Seq<char>,
}

/// An expression.
pub struct Expr {
    pub kind: ExprKind,
    pub span: Span,
}

/// The form of an expression.
pub enum ExprKind {
    IntLit(i64),
    /// The digits as written.
    FloatLit(Seq<char>),
    BoolLit(bool),
    /// The text that the literal stands for.
    StringLit(Seq<char>),
    Interpolated(Seq<StringPart>),
    CharLit(char),
    Ident(Seq<char>),
    This,
    Super,
    Null,
    Paren(Box<Expr>),
    Tuple(Seq<Expr>),
    Unary(UnaryOp, Box<Expr>),
    Postfix(UnaryOp, Box<Expr>),
    Binary(BinOp, Box<Expr>, Box<Expr>),
    Assign(Box<Expr>, Box<Expr>),
    CompoundAssign(BinOp, Box<Expr>, Box<Expr>),
    Conditional(Box<Expr>, Box<Expr>, Box<Expr>),
    /// Start, end, and whether the end belongs to it.
    Range(Option<Box<Expr>>, Option<Box<Expr>>, bool),
    NullableMember(Box<Expr>, Seq<char>),
    Call { callee: Seq<char>, type_args: Seq<Type>, args: Seq<CallArg> },
    MethodCall { object: Box<Expr>, method: Seq<char>, args: Seq<CallArg> },
    Member(Box<Expr>, Seq<char>),
    Index(Box<Expr>, Box<Expr>),
    ArrayLit(Seq<Expr>),
    VecEmpty,
    MapLit { ty: Type, entries: Seq<MapEntry> },
    Slice { object: Box<Expr>, start: Option<Box<Expr>>, end: Option<Box<Expr>>, inclusive: bool },
    StructLit { ty: Type, fields: Seq<FieldInit> },
    EnumVariant { enum_name: Option<Seq<char>>, variant: Seq<char>, args: Seq<CallArg> },
    Match(Box<MatchExpr>),
    Closure { params: Seq<Param>, body: Box<ClosureBody> },
}

/// A piece of a string with holes; text is kept as written.
pub enum StringPart {
    Literal(Seq<char>),
    Hole(Expr),
}

/// An entry of a map literal.
pub struct MapEntry {
    pub key: Expr,
    pub value: Expr,
}

/// A field of a struct literal; `span` covers the name.
pub struct FieldInit {
    pub name: Seq<char>,
    pub span: Span,
    pub value: Expr,
}

/// An argument of a call.
pub enum CallArg {
    Value(Expr),
    Named { name: Seq<char>, value: Expr },
    Out { ty: Option<Type>, name: Seq<char>, name_span: Span },
    Ref(Expr),
}

/// A `match`.
pub struct MatchExpr {
    pub scrutinee: Expr,
    pub arms: Seq<MatchArm>,
    pub span: Span,
}

/// An arm of a `match`.
pub struct MatchArm {
    pub pattern: Pattern,
    pub guard: Option<Expr>,
    pub body: ArmBody,
    pub span: Span,
}

/// What an arm does.
pub enum ArmBody {
    Value(Expr),
    Block(Block),
}

/// What a closure does.
pub enum ClosureBody {
    Value(Expr),
    Block(Block),
}

/// A pattern.
pub enum Pattern {
    Wildcard,
    Var(Seq<char>),
    LitInt(i64),
    LitBool(bool),
    Variant { variant: Seq<char>, payload: Option<Seq<Pattern>> },
    Tuple(Seq<Pattern>),
    Alternative(Seq<Pattern>),
}

/// Statements up to `end`, which the span covers too.
pub struct Block {
    pub stmts: Seq<Stmt>,
    pub span: Span,
}

/// A statement.
pub enum Stmt {
    VarDecl(VarDecl),
    Const(ConstDecl),
    Destructure { targets: Seq<Target>, expr: Expr, span: Span },
    Assert { is_debug: bool, cond: Expr, message: Option<Expr>, span: Span },
    If { cond: Expr, then_block: Block, else_block: Option<Block>, span: Span },
    While { cond: Expr, body: Block, span: Span },
    Loop { label: Option<Seq<char>>, body: Block, span: Span },
    For { label: Option<Seq<char>>, var: Seq<char>, var2: Option<Seq<char>>, iter: Expr, body: Block, span: Span },
    Return { value: Option<Expr>, span: Span },
    Expr { expr: Expr, span: Span },
    Block(Block),
    Break { label: Option<Seq<char>>, span: Span },
    Continue { label: Option<Seq<char>>, span: Span },
    Defer { inner: DeferInner, span: Span },
}

/// A target of a destructuring assignment.
pub enum Target {
    Name(Seq<char>),
    Wildcard,
}

/// What is deferred.
pub enum DeferInner {
    Value(Expr),
    Block(Block),
}

/// A variable.
pub struct VarDecl {
    pub visibility: Visibility,
    pub ty: Type,
    pub name: Seq<char>,
    pub name_span: Span,
    pub init: Option<Expr>,
    pub span: Span,
}

/// A constant.
pub struct ConstDecl {
    pub visibility: Visibility,
    pub ty: Option<Type>,
    pub name: Seq<char>,
    pub name_span: Span,
    pub init: Expr,
    pub span: Span,
}

/// A function or method.
pub struct Function {
    pub visibility: Visibility,
    pub is_static: bool,
    pub is_sealed: bool,
    pub is_override: bool,
    pub ret_ty: Type,
    pub ret_span: Span,
    pub name: Seq<char>,
    pub name_span: Span,
    pub generic_params: Seq<GenericParam>,
    pub params: Seq<Param>,
    pub where_clause: Option<WhereClause>,
    pub body: Block,
    pub span: Span,
}

/// A field.
pub struct StructField {
    pub visibility: Visibility,
    pub ty: Type,
    pub name: Seq<char>,
    pub default: Option<Expr>,
    pub span: Span,
}

/// A struct.
pub struct StructDecl {
    pub name: Seq<char>,
    pub name_span: Span,
    pub generic_params: Seq<GenericParam>,
    pub where_clause: Option<WhereClause>,
    pub fields: Seq<StructField>,
    pub span: Span,
}

/// A constructor.
pub struct ConstructorDecl {
    pub visibility: Visibility,
    pub name: Seq<char>,
    pub params: Seq<Param>,
    pub body: Option<Block>,
    pub span: Span,
}

/// A destructor.
pub struct DestructorDecl {
    pub visibility: Visibility,
    pub name: Seq<char>,
    pub body: Block,
    pub span: Span,
}

/// The setter of a property.
pub struct Setter {
    pub param: Param,
    pub body: Block,
}

/// A property.
pub struct PropertyDecl {
    pub visibility: Visibility,
    pub ty: Option<Type>,
    pub name: Seq<char>,
    pub getter: Option<Block>,
    pub setter: Option<Setter>,
    pub span: Span,
}

/// An operator of a class.
pub struct OperatorDecl {
    pub visibility: Visibility,
    pub is_static: bool,
    pub op: Seq<char>,
    pub params: Seq<Param>,
    pub where_clause: Option<WhereClause>,
    pub body: Block,
    pub span: Span,
}

/// A conversion.
pub struct ConversionDecl {
    pub visibility: Visibility,
    pub is_explicit: bool,
    pub from_ty: Type,
    pub to_ty: Type,
    pub body: Block,
    pub span: Span,
}

/// A class.
pub struct ClassDecl {
    pub is_open: bool,
    pub is_sealed: bool,
    pub name: Seq<char>,
    pub name_span: Span,
    pub generic_params: Seq<GenericParam>,
    pub where_clause: Option<WhereClause>,
    pub extends: Option<Type>,
    pub implements: Seq<Type>,
    pub fields: Seq<StructField>,
    pub constructors: Seq<ConstructorDecl>,
    pub destructors: Seq<DestructorDecl>,
    pub properties: Seq<PropertyDecl>,
    pub operators: Seq<OperatorDecl>,
    pub conversions: Seq<ConversionDecl>,
    pub methods: Seq<Function>,
    pub span: Span,
}

/// A variant of an enum.
pub struct VariantDecl {
    pub name: Seq<char>,
    pub payload: Seq<Param>,
    pub discriminant: Option<Expr>,
    pub span: Span,
}

/// An enum.
pub struct EnumDecl {
    pub name: Seq<char>,
    pub name_span: Span,
    pub generic_params: Seq<GenericParam>,
    pub where_clause: Option<WhereClause>,
    pub variants: Seq<VariantDecl>,
    pub span: Span,
}

/// A method that a trait asks for.
pub struct TraitMethod {
    pub is_sealed: bool,
    pub ret_ty: Type,
    pub name: Seq<char>,
    pub params: Seq<Param>,
    pub where_clause: Option<WhereClause>,
    pub span: Span,
}

/// A trait.
pub struct TraitDecl {
    pub name: Seq<char>,
    pub generic_params: Seq<GenericParam>,
    pub where_clause: Option<WhereClause>,
    pub methods: Seq<TraitMethod>,
    pub span: Span,
}

/// A member of an extension.
pub enum ExtensionMember {
    Field(StructField),
    Function(Function),
    Operator(OperatorDecl),
    Property(PropertyDecl),
    Conversion(ConversionDecl),
}

/// Members added to a type.
pub struct ExtensionDecl {
    pub ty: Type,
    pub members: Seq<ExtensionMember>,
    pub span: Span,
}

/// A declaration of a foreign library.
pub enum ExternMember {
    Function { ty: Type, name: Seq<char>, params: Seq<Param>, span: Span },
    Struct { name: Seq<char>, fields: Seq<StructField>, span: Span },
    Enum { name: Seq<char>, variants: Seq<VariantDecl>, span: Span },
    Const { ty: Type, name: Seq<char>, span: Span },
}

/// Declarations of a foreign library.
pub struct ExternDecl {
    pub lib: Seq<char>,
    pub file: Seq<char>,
    pub members: Seq<ExternMember>,
    pub span: Span,
}

/// An import: of a module, or of some of its symbols.
pub struct ImportDecl {
    pub path: Seq<Seq<char>>,
    pub symbols: Option<Seq<Seq<char>>>,
    pub span: Span,
}

/// An argument of an attribute.
pub enum AttributeArg {
    Value(Expr),
    Named { name: Seq<char>, value: Expr },
}

/// An attribute.
pub struct Attribute {
    pub name: Seq<char>,
    pub args: Seq<AttributeArg>,
}

/// A `typedef` or a `distinct` type.
pub struct AliasDecl {
    pub visibility: Visibility,
    pub name: Seq<char>,
    pub generic_params: Seq<GenericParam>,
    pub ty: Type,
    pub span: Span,
}

/// An item of a program.
pub enum Item {
    Import(ImportDecl),
    Function(Function),
    Struct(StructDecl),
    Class(ClassDecl),
    Enum(EnumDecl),
    Trait(TraitDecl),
    Typedef(AliasDecl),
    Distinct(AliasDecl),
    Extension(ExtensionDecl),
    Extern(ExternDecl),
    Init(Block),
    Const(ConstDecl),
    Var(VarDecl),
    Attributed { attrs: Seq<Attribute>, item: Box<Item> },
}

/// A program.
pub struct Program {
    pub items: Seq<Item>,
    pub span: Span,
}

} // verus!
