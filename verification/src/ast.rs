//! Syntax trees.
//!
//! The types here hold the trees that the parser builds. The types of `tree` have the
//! same shape over sequences; `tree()` maps each value to the one that it stands for.
use vstd::prelude::*;
use crate::token::Span;
use crate::tree;

verus! {

/// Who may see a declaration.
#[derive(Debug, Clone, Copy, PartialEq, Eq, Structural)]
pub enum Visibility {
    Public,
    Private,
    Default,
}

/// How a parameter is passed.
#[derive(Debug, Clone, Copy, PartialEq, Eq, Structural)]
pub enum ParamMode {
    Plain,
    Ref,
    Out,
}

/// A binary operator.
#[derive(Debug, Clone, Copy, PartialEq, Eq, Structural)]
pub enum BinOp {
    Add,
    Sub,
    Mul,
    Div,
    Mod,
    Lt,
    Le,
    Gt,
    Ge,
    Is,
    IsNot,
    And,
    Or,
    BitAnd,
    BitOr,
    BitXor,
    Shl,
    Shr,
    NullCoalesce,
}

/// A unary operator.
#[derive(Debug, Clone, Copy, PartialEq, Eq, Structural)]
pub enum UnaryOp {
    Neg,
    Not,
    Pos,
    BitNot,
    Inc,
    Dec,
}

/// A type as it is written.
#[derive(Debug)]
pub enum Type {
    Int,
    Bool,
    Void,
    Str,
    Char,
    Float,
    Double,
    Any,
    Named(String),
    Generic(String, Vec<Type>),
    /// Result and parameters.
    Function(Box<Type>, Vec<Type>),
    Tuple(Vec<Type>),
    Array(Box<Type>),
    FixedArray(Box<Type>, Option<u64>),
    Vector(Box<Type>),
    /// Key and value.
    Mapping(Box<Type>, Box<Type>),
    Pointer(Box<Type>),
    Optional(Box<Type>),
}

/// A generic parameter with its bounds.
#[derive(Debug)]
pub struct GenericParam {
    pub name: String,
    pub bounds: Vec<Type>,
}

/// One constraint of a `where` clause.
#[derive(Debug)]
pub struct Constraint {
    pub ty: Type,
    pub bounds: Vec<Type>,
}

/// A `where` clause.
#[derive(Debug)]
pub struct WhereClause {
    pub constraints: Vec<Constraint>,
}

/// A parameter. `...name` has the type name `__derived__`, a bare `...` an empty name.
#[derive(Debug)]
pub struct Param {
    pub is_variadic: bool,
    pub mode: ParamMode,
    pub ty: Type,
    pub name: String,
}

/// An expression.
#[derive(Debug)]
pub struct Expr {
    pub kind: ExprKind,
    pub span: Span,
}

/// The form of an expression.
#[derive(Debug)]
pub enum ExprKind {
    IntLit(i64),
    /// The digits as written.
    FloatLit(String),
    BoolLit(bool),
    /// The text that the literal stands for.
    StringLit(String),
    Interpolated(Vec<StringPart>),
    CharLit(char),
    Ident(String),
    This,
    Super,
    Null,
    Paren(Box<Expr>),
    Tuple(Vec<Expr>),
    Unary(UnaryOp, Box<Expr>),
    Postfix(UnaryOp, Box<Expr>),
    Binary(BinOp, Box<Expr>, Box<Expr>),
    Assign(Box<Expr>, Box<Expr>),
    CompoundAssign(BinOp, Box<Expr>, Box<Expr>),
    Conditional(Box<Expr>, Box<Expr>, Box<Expr>),
    /// Start, end, and whether the end belongs to it.
    Range(Option<Box<Expr>>, Option<Box<Expr>>, bool),
    NullableMember(Box<Expr>, String),
    Call { callee: String, type_args: Vec<Type>, args: Vec<CallArg> },
    MethodCall { object: Box<Expr>, method: String, args: Vec<CallArg> },
    Member(Box<Expr>, String),
    Index(Box<Expr>, Box<Expr>),
    ArrayLit(Vec<Expr>),
    VecEmpty,
    MapLit { ty: Type, entries: Vec<MapEntry> },
    Slice { object: Box<Expr>, start: Option<Box<Expr>>, end: Option<Box<Expr>>, inclusive: bool },
    StructLit { ty: Type, fields: Vec<FieldInit> },
    EnumVariant { enum_name: Option<String>, variant: String, args: Vec<CallArg> },
    Match(Box<MatchExpr>),
    Closure { params: Vec<Param>, body: Box<ClosureBody> },
}

/// A piece of a string with holes; text is kept as written.
#[derive(Debug)]
pub enum StringPart {
    Literal(String),
    Hole(Expr),
}

/// An entry of a map literal.
#[derive(Debug)]
pub struct MapEntry {
    pub key: Expr,
    pub value: Expr,
}

/// A field of a struct literal; `span` covers the name.
#[derive(Debug)]
pub struct FieldInit {
    pub name: String,
    pub span: Span,
    pub value: Expr,
}

/// An argument of a call.
#[derive(Debug)]
pub enum CallArg {
    Value(Expr),
    Named { name: String, value: Expr },
    Out { ty: Option<Type>, name: String, name_span: Span },
    Ref(Expr),
}

/// A `match`.
#[derive(Debug)]
pub struct MatchExpr {
    pub scrutinee: Expr,
    pub arms: Vec<MatchArm>,
    pub span: Span,
}

/// An arm of a `match`.
#[derive(Debug)]
pub struct MatchArm {
    pub pattern: Pattern,
    pub guard: Option<Expr>,
    pub body: ArmBody,
    pub span: Span,
}

/// What an arm does.
#[derive(Debug)]
pub enum ArmBody {
    Value(Expr),
    Block(Block),
}

/// What a closure does.
#[derive(Debug)]
pub enum ClosureBody {
    Value(Expr),
    Block(Block),
}

/// A pattern.
#[derive(Debug)]
pub enum Pattern {
    Wildcard,
    Var(String),
    LitInt(i64),
    LitBool(bool),
    Variant { variant: String, payload: Option<Vec<Pattern>> },
    Tuple(Vec<Pattern>),
    Alternative(Vec<Pattern>),
}

/// Statements up to `end`, which the span covers too.
#[derive(Debug)]
pub struct Block {
    pub stmts: Vec<Stmt>,
    pub span: Span,
}

/// A statement.
#[derive(Debug)]
pub enum Stmt {
    VarDecl(VarDecl),
    Const(ConstDecl),
    Destructure { targets: Vec<Target>, expr: Expr, span: Span },
    Assert { is_debug: bool, cond: Expr, message: Option<Expr>, span: Span },
    If { cond: Expr, then_block: Block, else_block: Option<Block>, span: Span },
    While { cond: Expr, body: Block, span: Span },
    Loop { label: Option<String>, body: Block, span: Span },
    For { label: Option<String>, var: String, var2: Option<String>, iter: Expr, body: Block, span: Span },
    Return { value: Option<Expr>, span: Span },
    Expr { expr: Expr, span: Span },
    Block(Block),
    Break { label: Option<String>, span: Span },
    Continue { label: Option<String>, span: Span },
    Defer { inner: DeferInner, span: Span },
}

/// A target of a destructuring assignment.
#[derive(Debug)]
pub enum Target {
    Name(String),
    Wildcard,
}

/// What is deferred.
#[derive(Debug)]
pub enum DeferInner {
    Value(Expr),
    Block(Block),
}

/// A variable.
#[derive(Debug)]
pub struct VarDecl {
    pub visibility: Visibility,
    pub ty: Type,
    pub name: String,
    pub name_span: Span,
    pub init: Option<Expr>,
    pub span: Span,
}

/// A constant.
#[derive(Debug)]
pub struct ConstDecl {
    pub visibility: Visibility,
    pub ty: Option<Type>,
    pub name: String,
    pub name_span: Span,
    pub init: Expr,
    pub span: Span,
}

/// A function or method.
#[derive(Debug)]
pub struct Function {
    pub visibility: Visibility,
    pub is_static: bool,
    pub is_sealed: bool,
    pub is_override: bool,
    pub ret_ty: Type,
    pub ret_span: Span,
    pub name: String,
    pub name_span: Span,
    pub generic_params: Vec<GenericParam>,
    pub params: Vec<Param>,
    pub where_clause: Option<WhereClause>,
    pub body: Block,
    pub span: Span,
}

/// A field.
#[derive(Debug)]
pub struct StructField {
    pub visibility: Visibility,
    pub ty: Type,
    pub name: String,
    pub default: Option<Expr>,
    pub span: Span,
}

/// A struct.
#[derive(Debug)]
pub struct StructDecl {
    pub name: String,
    pub name_span: Span,
    pub generic_params: Vec<GenericParam>,
    pub where_clause: Option<WhereClause>,
    pub fields: Vec<StructField>,
    pub span: Span,
}

/// A constructor.
#[derive(Debug)]
pub struct ConstructorDecl {
    pub visibility: Visibility,
    pub name: String,
    pub params: Vec<Param>,
    pub body: Option<Block>,
    pub span: Span,
}

/// A destructor.
#[derive(Debug)]
pub struct DestructorDecl {
    pub visibility: Visibility,
    pub name: String,
    pub body: Block,
    pub span: Span,
}

/// The setter of a property.
#[derive(Debug)]
pub struct Setter {
    pub param: Param,
    pub body: Block,
}

/// A property.
#[derive(Debug)]
pub struct PropertyDecl {
    pub visibility: Visibility,
    pub ty: Option<Type>,
    pub name: String,
    pub getter: Option<Block>,
    pub setter: Option<Setter>,
    pub span: Span,
}

/// An operator of a class.
#[derive(Debug)]
pub struct OperatorDecl {
    pub visibility: Visibility,
    pub is_static: bool,
    pub op: String,
    pub params: Vec<Param>,
    pub where_clause: Option<WhereClause>,
    pub body: Block,
    pub span: Span,
}

/// A conversion.
#[derive(Debug)]
pub struct ConversionDecl {
    pub visibility: Visibility,
    pub is_explicit: bool,
    pub from_ty: Type,
    pub to_ty: Type,
    pub body: Block,
    pub span: Span,
}

/// A class.
#[derive(Debug)]
pub struct ClassDecl {
    pub is_open: bool,
    pub is_sealed: bool,
    pub name: String,
    pub name_span: Span,
    pub generic_params: Vec<GenericParam>,
    pub where_clause: Option<WhereClause>,
    pub extends: Option<Type>,
    pub implements: Vec<Type>,
    pub fields: Vec<StructField>,
    pub constructors: Vec<ConstructorDecl>,
    pub destructors: Vec<DestructorDecl>,
    pub properties: Vec<PropertyDecl>,
    pub operators: Vec<OperatorDecl>,
    pub conversions: Vec<ConversionDecl>,
    pub methods: Vec<Function>,
    pub span: Span,
}

/// A variant of an enum.
#[derive(Debug)]
pub struct VariantDecl {
    pub name: String,
    pub payload: Vec<Param>,
    pub discriminant: Option<Expr>,
    pub span: Span,
}

/// An enum.
#[derive(Debug)]
pub struct EnumDecl {
    pub name: String,
    pub name_span: Span,
    pub generic_params: Vec<GenericParam>,
    pub where_clause: Option<WhereClause>,
    pub variants: Vec<VariantDecl>,
    pub span: Span,
}

/// A method that a trait asks for.
#[derive(Debug)]
pub struct TraitMethod {
    pub is_sealed: bool,
    pub ret_ty: Type,
    pub name: String,
    pub params: Vec<Param>,
    pub where_clause: Option<WhereClause>,
    pub span: Span,
}

/// A trait.
#[derive(Debug)]
pub struct TraitDecl {
    pub name: String,
    pub generic_params: Vec<GenericParam>,
    pub where_clause: Option<WhereClause>,
    pub methods: Vec<TraitMethod>,
    pub span: Span,
}

/// A member of an extension.
#[derive(Debug)]
pub enum ExtensionMember {
    Field(StructField),
    Function(Function),
    Operator(OperatorDecl),
    Property(PropertyDecl),
    Conversion(ConversionDecl),
}

/// Members added to a type.
#[derive(Debug)]
pub struct ExtensionDecl {
    pub ty: Type,
    pub members: Vec<ExtensionMember>,
    pub span: Span,
}

/// A declaration of a foreign library.
#[derive(Debug)]
pub enum ExternMember {
    Function { ty: Type, name: String, params: Vec<Param>, span: Span },
    Struct { name: String, fields: Vec<StructField>, span: Span },
    Enum { name: String, variants: Vec<VariantDecl>, span: Span },
    Const { ty: Type, name: String, span: Span },
}

/// Declarations of a foreign library.
#[derive(Debug)]
pub struct ExternDecl {
    pub lib: String,
    pub file: String,
    pub members: Vec<ExternMember>,
    pub span: Span,
}

/// An import: of a module, or of some of its symbols.
#[derive(Debug)]
pub struct ImportDecl {
    pub path: Vec<String>,
    pub symbols: Option<Vec<String>>,
    pub span: Span,
}

/// An argument of an attribute.
#[derive(Debug)]
pub enum AttributeArg {
    Value(Expr),
    Named { name: String, value: Expr },
}

/// An attribute.
#[derive(Debug)]
pub struct Attribute {
    pub name: String,
    pub args: Vec<AttributeArg>,
}

/// A `typedef` or a `distinct` type.
#[derive(Debug)]
pub struct AliasDecl {
    pub visibility: Visibility,
    pub name: String,
    pub generic_params: Vec<GenericParam>,
    pub ty: Type,
    pub span: Span,
}

/// An item of a program.
#[derive(Debug)]
pub enum Item {
    Import(ImportDecl),
    Function(Function),
    Struct(StructDecl),
    Class(ClassDecl),
    Enum(EnumDecl),
    Trait(TraitDecl),
    Typedef(AliasDecl),
    Distinct(AliasDecl),
    Extension(ExtensionDecl),
    Extern(ExternDecl),
    Init(Block),
    Const(ConstDecl),
    Var(VarDecl),
    Attributed { attrs: Vec<Attribute>, item: Box<Item> },
}

/// A program.
#[derive(Debug)]
pub struct Program {
    pub items: Vec<Item>,
    pub span: Span,
}

// ── The tree that a value stands for ────────────────────────────────────────

impl Type {
    pub open spec fn tree(self) -> tree::Type
        decreases self,
    {
        match self {
            Type::Int => tree::Type::Int,
            Type::Bool => tree::Type::Bool,
            Type::Void => tree::Type::Void,
            Type::Str => tree::Type::Str,
            Type::Char => tree::Type::Char,
            Type::Float => tree::Type::Float,
            Type::Double => tree::Type::Double,
            Type::Any => tree::Type::Any,
            Type::Named(a) => tree::Type::Named(a@),
            Type::Generic(a, b) => tree::Type::Generic(a@, types_of(b@)),
            Type::Function(a, b) => tree::Type::Function(Box::new(a.tree()), types_of(b@)),
            Type::Tuple(a) => tree::Type::Tuple(types_of(a@)),
            Type::Array(a) => tree::Type::Array(Box::new(a.tree())),
            Type::FixedArray(a, b) => tree::Type::FixedArray(Box::new(a.tree()), b),
            Type::Vector(a) => tree::Type::Vector(Box::new(a.tree())),
            Type::Mapping(a, b) => tree::Type::Mapping(Box::new(a.tree()), Box::new(b.tree())),
            Type::Pointer(a) => tree::Type::Pointer(Box::new(a.tree())),
            Type::Optional(a) => tree::Type::Optional(Box::new(a.tree())),
        }
    }
}

impl GenericParam {
    pub open spec fn tree(self) -> tree::GenericParam
    {
        tree::GenericParam {
            name: self.name@,
            bounds: types_of(self.bounds@),
        }
    }
}

impl Constraint {
    pub open spec fn tree(self) -> tree::Constraint
    {
        tree::Constraint {
            ty: self.ty.tree(),
            bounds: types_of(self.bounds@),
        }
    }
}

impl WhereClause {
    pub open spec fn tree(self) -> tree::WhereClause
    {
        tree::WhereClause {
            constraints: constraints_of(self.constraints@),
        }
    }
}

impl Param {
    pub open spec fn tree(self) -> tree::Param
    {
        tree::Param {
            is_variadic: self.is_variadic,
            mode: self.mode,
            ty: self.ty.tree(),
            name: self.name@,
        }
    }
}

impl Expr {
    pub open spec fn tree(self) -> tree::Expr
        decreases self,
    {
        tree::Expr {
            kind: self.kind.tree(),
            span: self.span,
        }
    }
}

impl ExprKind {
    pub open spec fn tree(self) -> tree::ExprKind
        decreases self,
    {
        match self {
            ExprKind::IntLit(a) => tree::ExprKind::IntLit(a),
            ExprKind::FloatLit(a) => tree::ExprKind::FloatLit(a@),
            ExprKind::BoolLit(a) => tree::ExprKind::BoolLit(a),
            ExprKind::StringLit(a) => tree::ExprKind::StringLit(a@),
            ExprKind::Interpolated(a) => tree::ExprKind::Interpolated(parts_of(a@)),
            ExprKind::CharLit(a) => tree::ExprKind::CharLit(a),
            ExprKind::Ident(a) => tree::ExprKind::Ident(a@),
            ExprKind::This => tree::ExprKind::This,
            ExprKind::Super => tree::ExprKind::Super,
            ExprKind::Null => tree::ExprKind::Null,
            ExprKind::Paren(a) => tree::ExprKind::Paren(Box::new(a.tree())),
            ExprKind::Tuple(a) => tree::ExprKind::Tuple(exprs_of(a@)),
            ExprKind::Unary(a, b) => tree::ExprKind::Unary(a, Box::new(b.tree())),
            ExprKind::Postfix(a, b) => tree::ExprKind::Postfix(a, Box::new(b.tree())),
            ExprKind::Binary(a, b, c) => tree::ExprKind::Binary(a, Box::new(b.tree()), Box::new(c.tree())),
            ExprKind::Assign(a, b) => tree::ExprKind::Assign(Box::new(a.tree()), Box::new(b.tree())),
            ExprKind::CompoundAssign(a, b, c) => tree::ExprKind::CompoundAssign(a, Box::new(b.tree()), Box::new(c.tree())),
            ExprKind::Conditional(a, b, c) => tree::ExprKind::Conditional(Box::new(a.tree()), Box::new(b.tree()), Box::new(c.tree())),
            ExprKind::Range(a, b, c) => tree::ExprKind::Range(match a {
                Some(v) => Some(Box::new(v.tree())),
                None => None,
            }, match b {
                Some(v) => Some(Box::new(v.tree())),
                None => None,
            }, c),
            ExprKind::NullableMember(a, b) => tree::ExprKind::NullableMember(Box::new(a.tree()), b@),
            ExprKind::Call { callee, type_args, args } => tree::ExprKind::Call { callee: callee@, type_args: types_of(type_args@), args: args_of(args@) },
            ExprKind::MethodCall { object, method, args } => tree::ExprKind::MethodCall { object: Box::new(object.tree()), method: method@, args: args_of(args@) },
            ExprKind::Member(a, b) => tree::ExprKind::Member(Box::new(a.tree()), b@),
            ExprKind::Index(a, b) => tree::ExprKind::Index(Box::new(a.tree()), Box::new(b.tree())),
            ExprKind::ArrayLit(a) => tree::ExprKind::ArrayLit(exprs_of(a@)),
            ExprKind::VecEmpty => tree::ExprKind::VecEmpty,
            ExprKind::MapLit { ty, entries } => tree::ExprKind::MapLit { ty: ty.tree(), entries: entries_of(entries@) },
            ExprKind::Slice { object, start, end, inclusive } => tree::ExprKind::Slice { object: Box::new(object.tree()), start: match start {
                Some(v) => Some(Box::new(v.tree())),
                None => None,
            }, end: match end {
                Some(v) => Some(Box::new(v.tree())),
                None => None,
            }, inclusive: inclusive },
            ExprKind::StructLit { ty, fields } => tree::ExprKind::StructLit { ty: ty.tree(), fields: inits_of(fields@) },
            ExprKind::EnumVariant { enum_name, variant, args } => tree::ExprKind::EnumVariant { enum_name: match enum_name {
                Some(v) => Some(v@),
                None => None,
            }, variant: variant@, args: args_of(args@) },
            ExprKind::Match(a) => tree::ExprKind::Match(Box::new(a.tree())),
            ExprKind::Closure { params, body } => tree::ExprKind::Closure { params: params_of(params@), body: Box::new(body.tree()) },
        }
    }
}

impl StringPart {
    pub open spec fn tree(self) -> tree::StringPart
        decreases self,
    {
        match self {
            StringPart::Literal(a) => tree::StringPart::Literal(a@),
            StringPart::Hole(a) => tree::StringPart::Hole(a.tree()),
        }
    }
}

impl MapEntry {
    pub open spec fn tree(self) -> tree::MapEntry
        decreases self,
    {
        tree::MapEntry {
            key: self.key.tree(),
            value: self.value.tree(),
        }
    }
}

impl FieldInit {
    pub open spec fn tree(self) -> tree::FieldInit
        decreases self,
    {
        tree::FieldInit {
            name: self.name@,
            span: self.span,
            value: self.value.tree(),
        }
    }
}

impl CallArg {
    pub open spec fn tree(self) -> tree::CallArg
        decreases self,
    {
        match self {
            CallArg::Value(a) => tree::CallArg::Value(a.tree()),
            CallArg::Named { name, value } => tree::CallArg::Named { name: name@, value: value.tree() },
            CallArg::Out { ty, name, name_span } => tree::CallArg::Out { ty: match ty {
                Some(v) => Some(v.tree()),
                None => None,
            }, name: name@, name_span: name_span },
            CallArg::Ref(a) => tree::CallArg::Ref(a.tree()),
        }
    }
}

impl MatchExpr {
    pub open spec fn tree(self) -> tree::MatchExpr
        decreases self,
    {
        tree::MatchExpr {
            scrutinee: self.scrutinee.tree(),
            arms: arms_of(self.arms@),
            span: self.span,
        }
    }
}

impl MatchArm {
    pub open spec fn tree(self) -> tree::MatchArm
        decreases self,
    {
        tree::MatchArm {
            pattern: self.pattern.tree(),
            guard: match self.guard {
                Some(v) => Some(v.tree()),
                None => None,
            },
            body: self.body.tree(),
            span: self.span,
        }
    }
}

impl ArmBody {
    pub open spec fn tree(self) -> tree::ArmBody
        decreases self,
    {
        match self {
            ArmBody::Value(a) => tree::ArmBody::Value(a.tree()),
            ArmBody::Block(a) => tree::ArmBody::Block(a.tree()),
        }
    }
}

impl ClosureBody {
    pub open spec fn tree(self) -> tree::ClosureBody
        decreases self,
    {
        match self {
            ClosureBody::Value(a) => tree::ClosureBody::Value(a.tree()),
            ClosureBody::Block(a) => tree::ClosureBody::Block(a.tree()),
        }
    }
}

impl Pattern {
    pub open spec fn tree(self) -> tree::Pattern
        decreases self,
    {
        match self {
            Pattern::Wildcard => tree::Pattern::Wildcard,
            Pattern::Var(a) => tree::Pattern::Var(a@),
            Pattern::LitInt(a) => tree::Pattern::LitInt(a),
            Pattern::LitBool(a) => tree::Pattern::LitBool(a),
            Pattern::Variant { variant, payload } => tree::Pattern::Variant { variant: variant@, payload: match payload {
                Some(v) => Some(patterns_of(v@)),
                None => None,
            } },
            Pattern::Tuple(a) => tree::Pattern::Tuple(patterns_of(a@)),
            Pattern::Alternative(a) => tree::Pattern::Alternative(patterns_of(a@)),
        }
    }
}

impl Block {
    pub open spec fn tree(self) -> tree::Block
        decreases self,
    {
        tree::Block {
            stmts: stmts_of(self.stmts@),
            span: self.span,
        }
    }
}

impl Stmt {
    pub open spec fn tree(self) -> tree::Stmt
        decreases self,
    {
        match self {
            Stmt::VarDecl(a) => tree::Stmt::VarDecl(a.tree()),
            Stmt::Const(a) => tree::Stmt::Const(a.tree()),
            Stmt::Destructure { targets, expr, span } => tree::Stmt::Destructure { targets: targets_of(targets@), expr: expr.tree(), span: span },
            Stmt::Assert { is_debug, cond, message, span } => tree::Stmt::Assert { is_debug: is_debug, cond: cond.tree(), message: match message {
                Some(v) => Some(v.tree()),
                None => None,
            }, span: span },
            Stmt::If { cond, then_block, else_block, span } => tree::Stmt::If { cond: cond.tree(), then_block: then_block.tree(), else_block: match else_block {
                Some(v) => Some(v.tree()),
                None => None,
            }, span: span },
            Stmt::While { cond, body, span } => tree::Stmt::While { cond: cond.tree(), body: body.tree(), span: span },
            Stmt::Loop { label, body, span } => tree::Stmt::Loop { label: match label {
                Some(v) => Some(v@),
                None => None,
            }, body: body.tree(), span: span },
            Stmt::For { label, var, var2, iter, body, span } => tree::Stmt::For { label: match label {
                Some(v) => Some(v@),
                None => None,
            }, var: var@, var2: match var2 {
                Some(v) => Some(v@),
                None => None,
            }, iter: iter.tree(), body: body.tree(), span: span },
            Stmt::Return { value, span } => tree::Stmt::Return { value: match value {
                Some(v) => Some(v.tree()),
                None => None,
            }, span: span },
            Stmt::Expr { expr, span } => tree::Stmt::Expr { expr: expr.tree(), span: span },
            Stmt::Block(a) => tree::Stmt::Block(a.tree()),
            Stmt::Break { label, span } => tree::Stmt::Break { label: match label {
                Some(v) => Some(v@),
                None => None,
            }, span: span },
            Stmt::Continue { label, span } => tree::Stmt::Continue { label: match label {
                Some(v) => Some(v@),
                None => None,
            }, span: span },
            Stmt::Defer { inner, span } => tree::Stmt::Defer { inner: inner.tree(), span: span },
        }
    }
}

impl Target {
    pub open spec fn tree(self) -> tree::Target
    {
        match self {
            Target::Name(a) => tree::Target::Name(a@),
            Target::Wildcard => tree::Target::Wildcard,
        }
    }
}

impl DeferInner {
    pub open spec fn tree(self) -> tree::DeferInner
        decreases self,
    {
        match self {
            DeferInner::Value(a) => tree::DeferInner::Value(a.tree()),
            DeferInner::Block(a) => tree::DeferInner::Block(a.tree()),
        }
    }
}

impl VarDecl {
    pub open spec fn tree(self) -> tree::VarDecl
        decreases self,
    {
        tree::VarDecl {
            visibility: self.visibility,
            ty: self.ty.tree(),
            name: self.name@,
            name_span: self.name_span,
            init: match self.init {
                Some(v) => Some(v.tree()),
                None => None,
            },
            span: self.span,
        }
    }
}

impl ConstDecl {
    pub open spec fn tree(self) -> tree::ConstDecl
        decreases self,
    {
        tree::ConstDecl {
            visibility: self.visibility,
            ty: match self.ty {
                Some(v) => Some(v.tree()),
                None => None,
            },
            name: self.name@,
            name_span: self.name_span,
            init: self.init.tree(),
            span: self.span,
        }
    }
}

impl Function {
    pub open spec fn tree(self) -> tree::Function
    {
        tree::Function {
            visibility: self.visibility,
            is_static: self.is_static,
            is_sealed: self.is_sealed,
            is_override: self.is_override,
            ret_ty: self.ret_ty.tree(),
            ret_span: self.ret_span,
            name: self.name@,
            name_span: self.name_span,
            generic_params: generics_of(self.generic_params@),
            params: params_of(self.params@),
            where_clause: match self.where_clause {
                Some(v) => Some(v.tree()),
                None => None,
            },
            body: self.body.tree(),
            span: self.span,
        }
    }
}

impl StructField {
    pub open spec fn tree(self) -> tree::StructField
    {
        tree::StructField {
            visibility: self.visibility,
            ty: self.ty.tree(),
            name: self.name@,
            default: match self.default {
                Some(v) => Some(v.tree()),
                None => None,
            },
            span: self.span,
        }
    }
}

impl StructDecl {
    pub open spec fn tree(self) -> tree::StructDecl
    {
        tree::StructDecl {
            name: self.name@,
            name_span: self.name_span,
            generic_params: generics_of(self.generic_params@),
            where_clause: match self.where_clause {
                Some(v) => Some(v.tree()),
                None => None,
            },
            fields: fields_of(self.fields@),
            span: self.span,
        }
    }
}

impl ConstructorDecl {
    pub open spec fn tree(self) -> tree::ConstructorDecl
    {
        tree::ConstructorDecl {
            visibility: self.visibility,
            name: self.name@,
            params: params_of(self.params@),
            body: match self.body {
                Some(v) => Some(v.tree()),
                None => None,
            },
            span: self.span,
        }
    }
}

impl DestructorDecl {
    pub open spec fn tree(self) -> tree::DestructorDecl
    {
        tree::DestructorDecl {
            visibility: self.visibility,
            name: self.name@,
            body: self.body.tree(),
            span: self.span,
        }
    }
}

impl Setter {
    pub open spec fn tree(self) -> tree::Setter
    {
        tree::Setter {
            param: self.param.tree(),
            body: self.body.tree(),
        }
    }
}

impl PropertyDecl {
    pub open spec fn tree(self) -> tree::PropertyDecl
    {
        tree::PropertyDecl {
            visibility: self.visibility,
            ty: match self.ty {
                Some(v) => Some(v.tree()),
                None => None,
            },
            name: self.name@,
            getter: match self.getter {
                Some(v) => Some(v.tree()),
                None => None,
            },
            setter: match self.setter {
                Some(v) => Some(v.tree()),
                None => None,
            },
            span: self.span,
        }
    }
}

impl OperatorDecl {
    pub open spec fn tree(self) -> tree::OperatorDecl
    {
        tree::OperatorDecl {
            visibility: self.visibility,
            is_static: self.is_static,
            op: self.op@,
            params: params_of(self.params@),
            where_clause: match self.where_clause {
                Some(v) => Some(v.tree()),
                None => None,
            },
            body: self.body.tree(),
            span: self.span,
        }
    }
}

impl ConversionDecl {
    pub open spec fn tree(self) -> tree::ConversionDecl
    {
        tree::ConversionDecl {
            visibility: self.visibility,
            is_explicit: self.is_explicit,
            from_ty: self.from_ty.tree(),
            to_ty: self.to_ty.tree(),
            body: self.body.tree(),
            span: self.span,
        }
    }
}

impl ClassDecl {
    pub open spec fn tree(self) -> tree::ClassDecl
    {
        tree::ClassDecl {
            is_open: self.is_open,
            is_sealed: self.is_sealed,
            name: self.name@,
            name_span: self.name_span,
            generic_params: generics_of(self.generic_params@),
            where_clause: match self.where_clause {
                Some(v) => Some(v.tree()),
                None => None,
            },
            extends: match self.extends {
                Some(v) => Some(v.tree()),
                None => None,
            },
            implements: types_of(self.implements@),
            fields: fields_of(self.fields@),
            constructors: constructors_of(self.constructors@),
            destructors: destructors_of(self.destructors@),
            properties: properties_of(self.properties@),
            operators: operators_of(self.operators@),
            conversions: conversions_of(self.conversions@),
            methods: functions_of(self.methods@),
            span: self.span,
        }
    }
}

impl VariantDecl {
    pub open spec fn tree(self) -> tree::VariantDecl
    {
        tree::VariantDecl {
            name: self.name@,
            payload: params_of(self.payload@),
            discriminant: match self.discriminant {
                Some(v) => Some(v.tree()),
                None => None,
            },
            span: self.span,
        }
    }
}

impl EnumDecl {
    pub open spec fn tree(self) -> tree::EnumDecl
    {
        tree::EnumDecl {
            name: self.name@,
            name_span: self.name_span,
            generic_params: generics_of(self.generic_params@),
            where_clause: match self.where_clause {
                Some(v) => Some(v.tree()),
                None => None,
            },
            variants: variants_of(self.variants@),
            span: self.span,
        }
    }
}

impl TraitMethod {
    pub open spec fn tree(self) -> tree::TraitMethod
    {
        tree::TraitMethod {
            is_sealed: self.is_sealed,
            ret_ty: self.ret_ty.tree(),
            name: self.name@,
            params: params_of(self.params@),
            where_clause: match self.where_clause {
                Some(v) => Some(v.tree()),
                None => None,
            },
            span: self.span,
        }
    }
}

impl TraitDecl {
    pub open spec fn tree(self) -> tree::TraitDecl
    {
        tree::TraitDecl {
            name: self.name@,
            generic_params: generics_of(self.generic_params@),
            where_clause: match self.where_clause {
                Some(v) => Some(v.tree()),
                None => None,
            },
            methods: trait_methods_of(self.methods@),
            span: self.span,
        }
    }
}

impl ExtensionMember {
    pub open spec fn tree(self) -> tree::ExtensionMember
    {
        match self {
            ExtensionMember::Field(a) => tree::ExtensionMember::Field(a.tree()),
            ExtensionMember::Function(a) => tree::ExtensionMember::Function(a.tree()),
            ExtensionMember::Operator(a) => tree::ExtensionMember::Operator(a.tree()),
            ExtensionMember::Property(a) => tree::ExtensionMember::Property(a.tree()),
            ExtensionMember::Conversion(a) => tree::ExtensionMember::Conversion(a.tree()),
        }
    }
}

impl ExtensionDecl {
    pub open spec fn tree(self) -> tree::ExtensionDecl
    {
        tree::ExtensionDecl {
            ty: self.ty.tree(),
            members: extension_members_of(self.members@),
            span: self.span,
        }
    }
}

impl ExternMember {
    pub open spec fn tree(self) -> tree::ExternMember
    {
        match self {
            ExternMember::Function { ty, name, params, span } => tree::ExternMember::Function { ty: ty.tree(), name: name@, params: params_of(params@), span: span },
            ExternMember::Struct { name, fields, span } => tree::ExternMember::Struct { name: name@, fields: fields_of(fields@), span: span },
            ExternMember::Enum { name, variants, span } => tree::ExternMember::Enum { name: name@, variants: variants_of(variants@), span: span },
            ExternMember::Const { ty, name, span } => tree::ExternMember::Const { ty: ty.tree(), name: name@, span: span },
        }
    }
}

impl ExternDecl {
    pub open spec fn tree(self) -> tree::ExternDecl
    {
        tree::ExternDecl {
            lib: self.lib@,
            file: self.file@,
            members: extern_members_of(self.members@),
            span: self.span,
        }
    }
}

impl ImportDecl {
    pub open spec fn tree(self) -> tree::ImportDecl
    {
        tree::ImportDecl {
            path: names_of(self.path@),
            symbols: match self.symbols {
                Some(v) => Some(names_of(v@)),
                None => None,
            },
            span: self.span,
        }
    }
}

impl AttributeArg {
    pub open spec fn tree(self) -> tree::AttributeArg
    {
        match self {
            AttributeArg::Value(a) => tree::AttributeArg::Value(a.tree()),
            AttributeArg::Named { name, value } => tree::AttributeArg::Named { name: name@, value: value.tree() },
        }
    }
}

impl Attribute {
    pub open spec fn tree(self) -> tree::Attribute
    {
        tree::Attribute {
            name: self.name@,
            args: attribute_args_of(self.args@),
        }
    }
}

impl AliasDecl {
    pub open spec fn tree(self) -> tree::AliasDecl
    {
        tree::AliasDecl {
            visibility: self.visibility,
            name: self.name@,
            generic_params: generics_of(self.generic_params@),
            ty: self.ty.tree(),
            span: self.span,
        }
    }
}

impl Item {
    pub open spec fn tree(self) -> tree::Item
        decreases self,
    {
        match self {
            Item::Import(a) => tree::Item::Import(a.tree()),
            Item::Function(a) => tree::Item::Function(a.tree()),
            Item::Struct(a) => tree::Item::Struct(a.tree()),
            Item::Class(a) => tree::Item::Class(a.tree()),
            Item::Enum(a) => tree::Item::Enum(a.tree()),
            Item::Trait(a) => tree::Item::Trait(a.tree()),
            Item::Typedef(a) => tree::Item::Typedef(a.tree()),
            Item::Distinct(a) => tree::Item::Distinct(a.tree()),
            Item::Extension(a) => tree::Item::Extension(a.tree()),
            Item::Extern(a) => tree::Item::Extern(a.tree()),
            Item::Init(a) => tree::Item::Init(a.tree()),
            Item::Const(a) => tree::Item::Const(a.tree()),
            Item::Var(a) => tree::Item::Var(a.tree()),
            Item::Attributed { attrs, item } => tree::Item::Attributed { attrs: attributes_of(attrs@), item: Box::new(item.tree()) },
        }
    }
}

impl Program {
    pub open spec fn tree(self) -> tree::Program
    {
        tree::Program {
            items: items_of(self.items@),
            span: self.span,
        }
    }
}

pub open spec fn types_of(v: Seq<Type>) -> Seq<tree::Type>
    decreases v,
{
    if v.len() == 0 {
        seq![]
    } else {
        types_of(v.drop_last()).push(v.last().tree())
    }
}

pub broadcast proof fn types_of_index(v: Seq<Type>)
    ensures
        #[trigger] types_of(v).len() == v.len(),
        forall|i: int| 0 <= i < v.len() ==> #[trigger] types_of(v)[i] == v[i].tree(),
    decreases v.len(),
{
    if v.len() > 0 {
        let front = v.drop_last();
        types_of_index(front);
        assert forall|i: int| 0 <= i < v.len() implies #[trigger] types_of(v)[i] == v[i].tree() by {
            if i < front.len() {
                assert(types_of(front)[i] == front[i].tree());
            }
        }
    }
}

pub broadcast proof fn types_of_push(v: Seq<Type>, x: Type)
    ensures
        #[trigger] types_of(v.push(x)) == types_of(v).push(x.tree()),
{
    assert(v.push(x).drop_last() =~= v);
}

pub open spec fn generics_of(v: Seq<GenericParam>) -> Seq<tree::GenericParam>
    decreases v,
{
    if v.len() == 0 {
        seq![]
    } else {
        generics_of(v.drop_last()).push(v.last().tree())
    }
}

pub broadcast proof fn generics_of_index(v: Seq<GenericParam>)
    ensures
        #[trigger] generics_of(v).len() == v.len(),
        forall|i: int| 0 <= i < v.len() ==> #[trigger] generics_of(v)[i] == v[i].tree(),
    decreases v.len(),
{
    if v.len() > 0 {
        let front = v.drop_last();
        generics_of_index(front);
        assert forall|i: int| 0 <= i < v.len() implies #[trigger] generics_of(v)[i] == v[i].tree() by {
            if i < front.len() {
                assert(generics_of(front)[i] == front[i].tree());
            }
        }
    }
}

pub broadcast proof fn generics_of_push(v: Seq<GenericParam>, x: GenericParam)
    ensures
        #[trigger] generics_of(v.push(x)) == generics_of(v).push(x.tree()),
{
    assert(v.push(x).drop_last() =~= v);
}

pub open spec fn constraints_of(v: Seq<Constraint>) -> Seq<tree::Constraint>
    decreases v,
{
    if v.len() == 0 {
        seq![]
    } else {
        constraints_of(v.drop_last()).push(v.last().tree())
    }
}

pub broadcast proof fn constraints_of_index(v: Seq<Constraint>)
    ensures
        #[trigger] constraints_of(v).len() == v.len(),
        forall|i: int| 0 <= i < v.len() ==> #[trigger] constraints_of(v)[i] == v[i].tree(),
    decreases v.len(),
{
    if v.len() > 0 {
        let front = v.drop_last();
        constraints_of_index(front);
        assert forall|i: int| 0 <= i < v.len() implies #[trigger] constraints_of(v)[i] == v[i].tree() by {
            if i < front.len() {
                assert(constraints_of(front)[i] == front[i].tree());
            }
        }
    }
}

pub broadcast proof fn constraints_of_push(v: Seq<Constraint>, x: Constraint)
    ensures
        #[trigger] constraints_of(v.push(x)) == constraints_of(v).push(x.tree()),
{
    assert(v.push(x).drop_last() =~= v);
}

pub open spec fn params_of(v: Seq<Param>) -> Seq<tree::Param>
    decreases v,
{
    if v.len() == 0 {
        seq![]
    } else {
        params_of(v.drop_last()).push(v.last().tree())
    }
}

pub broadcast proof fn params_of_index(v: Seq<Param>)
    ensures
        #[trigger] params_of(v).len() == v.len(),
        forall|i: int| 0 <= i < v.len() ==> #[trigger] params_of(v)[i] == v[i].tree(),
    decreases v.len(),
{
    if v.len() > 0 {
        let front = v.drop_last();
        params_of_index(front);
        assert forall|i: int| 0 <= i < v.len() implies #[trigger] params_of(v)[i] == v[i].tree() by {
            if i < front.len() {
                assert(params_of(front)[i] == front[i].tree());
            }
        }
    }
}

pub broadcast proof fn params_of_push(v: Seq<Param>, x: Param)
    ensures
        #[trigger] params_of(v.push(x)) == params_of(v).push(x.tree()),
{
    assert(v.push(x).drop_last() =~= v);
}

pub open spec fn parts_of(v: Seq<StringPart>) -> Seq<tree::StringPart>
    decreases v,
{
    if v.len() == 0 {
        seq![]
    } else {
        parts_of(v.drop_last()).push(v.last().tree())
    }
}

pub broadcast proof fn parts_of_index(v: Seq<StringPart>)
    ensures
        #[trigger] parts_of(v).len() == v.len(),
        forall|i: int| 0 <= i < v.len() ==> #[trigger] parts_of(v)[i] == v[i].tree(),
    decreases v.len(),
{
    if v.len() > 0 {
        let front = v.drop_last();
        parts_of_index(front);
        assert forall|i: int| 0 <= i < v.len() implies #[trigger] parts_of(v)[i] == v[i].tree() by {
            if i < front.len() {
                assert(parts_of(front)[i] == front[i].tree());
            }
        }
    }
}

pub broadcast proof fn parts_of_push(v: Seq<StringPart>, x: StringPart)
    ensures
        #[trigger] parts_of(v.push(x)) == parts_of(v).push(x.tree()),
{
    assert(v.push(x).drop_last() =~= v);
}

pub open spec fn exprs_of(v: Seq<Expr>) -> Seq<tree::Expr>
    decreases v,
{
    if v.len() == 0 {
        seq![]
    } else {
        exprs_of(v.drop_last()).push(v.last().tree())
    }
}

pub broadcast proof fn exprs_of_index(v: Seq<Expr>)
    ensures
        #[trigger] exprs_of(v).len() == v.len(),
        forall|i: int| 0 <= i < v.len() ==> #[trigger] exprs_of(v)[i] == v[i].tree(),
    decreases v.len(),
{
    if v.len() > 0 {
        let front = v.drop_last();
        exprs_of_index(front);
        assert forall|i: int| 0 <= i < v.len() implies #[trigger] exprs_of(v)[i] == v[i].tree() by {
            if i < front.len() {
                assert(exprs_of(front)[i] == front[i].tree());
            }
        }
    }
}

pub broadcast proof fn exprs_of_push(v: Seq<Expr>, x: Expr)
    ensures
        #[trigger] exprs_of(v.push(x)) == exprs_of(v).push(x.tree()),
{
    assert(v.push(x).drop_last() =~= v);
}

pub open spec fn args_of(v: Seq<CallArg>) -> Seq<tree::CallArg>
    decreases v,
{
    if v.len() == 0 {
        seq![]
    } else {
        args_of(v.drop_last()).push(v.last().tree())
    }
}

pub broadcast proof fn args_of_index(v: Seq<CallArg>)
    ensures
        #[trigger] args_of(v).len() == v.len(),
        forall|i: int| 0 <= i < v.len() ==> #[trigger] args_of(v)[i] == v[i].tree(),
    decreases v.len(),
{
    if v.len() > 0 {
        let front = v.drop_last();
        args_of_index(front);
        assert forall|i: int| 0 <= i < v.len() implies #[trigger] args_of(v)[i] == v[i].tree() by {
            if i < front.len() {
                assert(args_of(front)[i] == front[i].tree());
            }
        }
    }
}

pub broadcast proof fn args_of_push(v: Seq<CallArg>, x: CallArg)
    ensures
        #[trigger] args_of(v.push(x)) == args_of(v).push(x.tree()),
{
    assert(v.push(x).drop_last() =~= v);
}

pub open spec fn entries_of(v: Seq<MapEntry>) -> Seq<tree::MapEntry>
    decreases v,
{
    if v.len() == 0 {
        seq![]
    } else {
        entries_of(v.drop_last()).push(v.last().tree())
    }
}

pub broadcast proof fn entries_of_index(v: Seq<MapEntry>)
    ensures
        #[trigger] entries_of(v).len() == v.len(),
        forall|i: int| 0 <= i < v.len() ==> #[trigger] entries_of(v)[i] == v[i].tree(),
    decreases v.len(),
{
    if v.len() > 0 {
        let front = v.drop_last();
        entries_of_index(front);
        assert forall|i: int| 0 <= i < v.len() implies #[trigger] entries_of(v)[i] == v[i].tree() by {
            if i < front.len() {
                assert(entries_of(front)[i] == front[i].tree());
            }
        }
    }
}

pub broadcast proof fn entries_of_push(v: Seq<MapEntry>, x: MapEntry)
    ensures
        #[trigger] entries_of(v.push(x)) == entries_of(v).push(x.tree()),
{
    assert(v.push(x).drop_last() =~= v);
}

pub open spec fn inits_of(v: Seq<FieldInit>) -> Seq<tree::FieldInit>
    decreases v,
{
    if v.len() == 0 {
        seq![]
    } else {
        inits_of(v.drop_last()).push(v.last().tree())
    }
}

pub broadcast proof fn inits_of_index(v: Seq<FieldInit>)
    ensures
        #[trigger] inits_of(v).len() == v.len(),
        forall|i: int| 0 <= i < v.len() ==> #[trigger] inits_of(v)[i] == v[i].tree(),
    decreases v.len(),
{
    if v.len() > 0 {
        let front = v.drop_last();
        inits_of_index(front);
        assert forall|i: int| 0 <= i < v.len() implies #[trigger] inits_of(v)[i] == v[i].tree() by {
            if i < front.len() {
                assert(inits_of(front)[i] == front[i].tree());
            }
        }
    }
}

pub broadcast proof fn inits_of_push(v: Seq<FieldInit>, x: FieldInit)
    ensures
        #[trigger] inits_of(v.push(x)) == inits_of(v).push(x.tree()),
{
    assert(v.push(x).drop_last() =~= v);
}

pub open spec fn arms_of(v: Seq<MatchArm>) -> Seq<tree::MatchArm>
    decreases v,
{
    if v.len() == 0 {
        seq![]
    } else {
        arms_of(v.drop_last()).push(v.last().tree())
    }
}

pub broadcast proof fn arms_of_index(v: Seq<MatchArm>)
    ensures
        #[trigger] arms_of(v).len() == v.len(),
        forall|i: int| 0 <= i < v.len() ==> #[trigger] arms_of(v)[i] == v[i].tree(),
    decreases v.len(),
{
    if v.len() > 0 {
        let front = v.drop_last();
        arms_of_index(front);
        assert forall|i: int| 0 <= i < v.len() implies #[trigger] arms_of(v)[i] == v[i].tree() by {
            if i < front.len() {
                assert(arms_of(front)[i] == front[i].tree());
            }
        }
    }
}

pub broadcast proof fn arms_of_push(v: Seq<MatchArm>, x: MatchArm)
    ensures
        #[trigger] arms_of(v.push(x)) == arms_of(v).push(x.tree()),
{
    assert(v.push(x).drop_last() =~= v);
}

pub open spec fn patterns_of(v: Seq<Pattern>) -> Seq<tree::Pattern>
    decreases v,
{
    if v.len() == 0 {
        seq![]
    } else {
        patterns_of(v.drop_last()).push(v.last().tree())
    }
}

pub broadcast proof fn patterns_of_index(v: Seq<Pattern>)
    ensures
        #[trigger] patterns_of(v).len() == v.len(),
        forall|i: int| 0 <= i < v.len() ==> #[trigger] patterns_of(v)[i] == v[i].tree(),
    decreases v.len(),
{
    if v.len() > 0 {
        let front = v.drop_last();
        patterns_of_index(front);
        assert forall|i: int| 0 <= i < v.len() implies #[trigger] patterns_of(v)[i] == v[i].tree() by {
            if i < front.len() {
                assert(patterns_of(front)[i] == front[i].tree());
            }
        }
    }
}

pub broadcast proof fn patterns_of_push(v: Seq<Pattern>, x: Pattern)
    ensures
        #[trigger] patterns_of(v.push(x)) == patterns_of(v).push(x.tree()),
{
    assert(v.push(x).drop_last() =~= v);
}

pub open spec fn stmts_of(v: Seq<Stmt>) -> Seq<tree::Stmt>
    decreases v,
{
    if v.len() == 0 {
        seq![]
    } else {
        stmts_of(v.drop_last()).push(v.last().tree())
    }
}

pub broadcast proof fn stmts_of_index(v: Seq<Stmt>)
    ensures
        #[trigger] stmts_of(v).len() == v.len(),
        forall|i: int| 0 <= i < v.len() ==> #[trigger] stmts_of(v)[i] == v[i].tree(),
    decreases v.len(),
{
    if v.len() > 0 {
        let front = v.drop_last();
        stmts_of_index(front);
        assert forall|i: int| 0 <= i < v.len() implies #[trigger] stmts_of(v)[i] == v[i].tree() by {
            if i < front.len() {
                assert(stmts_of(front)[i] == front[i].tree());
            }
        }
    }
}

pub broadcast proof fn stmts_of_push(v: Seq<Stmt>, x: Stmt)
    ensures
        #[trigger] stmts_of(v.push(x)) == stmts_of(v).push(x.tree()),
{
    assert(v.push(x).drop_last() =~= v);
}

pub open spec fn targets_of(v: Seq<Target>) -> Seq<tree::Target>
    decreases v,
{
    if v.len() == 0 {
        seq![]
    } else {
        targets_of(v.drop_last()).push(v.last().tree())
    }
}

pub broadcast proof fn targets_of_index(v: Seq<Target>)
    ensures
        #[trigger] targets_of(v).len() == v.len(),
        forall|i: int| 0 <= i < v.len() ==> #[trigger] targets_of(v)[i] == v[i].tree(),
    decreases v.len(),
{
    if v.len() > 0 {
        let front = v.drop_last();
        targets_of_index(front);
        assert forall|i: int| 0 <= i < v.len() implies #[trigger] targets_of(v)[i] == v[i].tree() by {
            if i < front.len() {
                assert(targets_of(front)[i] == front[i].tree());
            }
        }
    }
}

pub broadcast proof fn targets_of_push(v: Seq<Target>, x: Target)
    ensures
        #[trigger] targets_of(v.push(x)) == targets_of(v).push(x.tree()),
{
    assert(v.push(x).drop_last() =~= v);
}

pub open spec fn fields_of(v: Seq<StructField>) -> Seq<tree::StructField>
    decreases v,
{
    if v.len() == 0 {
        seq![]
    } else {
        fields_of(v.drop_last()).push(v.last().tree())
    }
}

pub broadcast proof fn fields_of_index(v: Seq<StructField>)
    ensures
        #[trigger] fields_of(v).len() == v.len(),
        forall|i: int| 0 <= i < v.len() ==> #[trigger] fields_of(v)[i] == v[i].tree(),
    decreases v.len(),
{
    if v.len() > 0 {
        let front = v.drop_last();
        fields_of_index(front);
        assert forall|i: int| 0 <= i < v.len() implies #[trigger] fields_of(v)[i] == v[i].tree() by {
            if i < front.len() {
                assert(fields_of(front)[i] == front[i].tree());
            }
        }
    }
}

pub broadcast proof fn fields_of_push(v: Seq<StructField>, x: StructField)
    ensures
        #[trigger] fields_of(v.push(x)) == fields_of(v).push(x.tree()),
{
    assert(v.push(x).drop_last() =~= v);
}

pub open spec fn constructors_of(v: Seq<ConstructorDecl>) -> Seq<tree::ConstructorDecl>
    decreases v,
{
    if v.len() == 0 {
        seq![]
    } else {
        constructors_of(v.drop_last()).push(v.last().tree())
    }
}

pub broadcast proof fn constructors_of_index(v: Seq<ConstructorDecl>)
    ensures
        #[trigger] constructors_of(v).len() == v.len(),
        forall|i: int| 0 <= i < v.len() ==> #[trigger] constructors_of(v)[i] == v[i].tree(),
    decreases v.len(),
{
    if v.len() > 0 {
        let front = v.drop_last();
        constructors_of_index(front);
        assert forall|i: int| 0 <= i < v.len() implies #[trigger] constructors_of(v)[i] == v[i].tree() by {
            if i < front.len() {
                assert(constructors_of(front)[i] == front[i].tree());
            }
        }
    }
}

pub broadcast proof fn constructors_of_push(v: Seq<ConstructorDecl>, x: ConstructorDecl)
    ensures
        #[trigger] constructors_of(v.push(x)) == constructors_of(v).push(x.tree()),
{
    assert(v.push(x).drop_last() =~= v);
}

pub open spec fn destructors_of(v: Seq<DestructorDecl>) -> Seq<tree::DestructorDecl>
    decreases v,
{
    if v.len() == 0 {
        seq![]
    } else {
        destructors_of(v.drop_last()).push(v.last().tree())
    }
}

pub broadcast proof fn destructors_of_index(v: Seq<DestructorDecl>)
    ensures
        #[trigger] destructors_of(v).len() == v.len(),
        forall|i: int| 0 <= i < v.len() ==> #[trigger] destructors_of(v)[i] == v[i].tree(),
    decreases v.len(),
{
    if v.len() > 0 {
        let front = v.drop_last();
        destructors_of_index(front);
        assert forall|i: int| 0 <= i < v.len() implies #[trigger] destructors_of(v)[i] == v[i].tree() by {
            if i < front.len() {
                assert(destructors_of(front)[i] == front[i].tree());
            }
        }
    }
}

pub broadcast proof fn destructors_of_push(v: Seq<DestructorDecl>, x: DestructorDecl)
    ensures
        #[trigger] destructors_of(v.push(x)) == destructors_of(v).push(x.tree()),
{
    assert(v.push(x).drop_last() =~= v);
}

pub open spec fn properties_of(v: Seq<PropertyDecl>) -> Seq<tree::PropertyDecl>
    decreases v,
{
    if v.len() == 0 {
        seq![]
    } else {
        properties_of(v.drop_last()).push(v.last().tree())
    }
}

pub broadcast proof fn properties_of_index(v: Seq<PropertyDecl>)
    ensures
        #[trigger] properties_of(v).len() == v.len(),
        forall|i: int| 0 <= i < v.len() ==> #[trigger] properties_of(v)[i] == v[i].tree(),
    decreases v.len(),
{
    if v.len() > 0 {
        let front = v.drop_last();
        properties_of_index(front);
        assert forall|i: int| 0 <= i < v.len() implies #[trigger] properties_of(v)[i] == v[i].tree() by {
            if i < front.len() {
                assert(properties_of(front)[i] == front[i].tree());
            }
        }
    }
}

pub broadcast proof fn properties_of_push(v: Seq<PropertyDecl>, x: PropertyDecl)
    ensures
        #[trigger] properties_of(v.push(x)) == properties_of(v).push(x.tree()),
{
    assert(v.push(x).drop_last() =~= v);
}

pub open spec fn operators_of(v: Seq<OperatorDecl>) -> Seq<tree::OperatorDecl>
    decreases v,
{
    if v.len() == 0 {
        seq![]
    } else {
        operators_of(v.drop_last()).push(v.last().tree())
    }
}

pub broadcast proof fn operators_of_index(v: Seq<OperatorDecl>)
    ensures
        #[trigger] operators_of(v).len() == v.len(),
        forall|i: int| 0 <= i < v.len() ==> #[trigger] operators_of(v)[i] == v[i].tree(),
    decreases v.len(),
{
    if v.len() > 0 {
        let front = v.drop_last();
        operators_of_index(front);
        assert forall|i: int| 0 <= i < v.len() implies #[trigger] operators_of(v)[i] == v[i].tree() by {
            if i < front.len() {
                assert(operators_of(front)[i] == front[i].tree());
            }
        }
    }
}

pub broadcast proof fn operators_of_push(v: Seq<OperatorDecl>, x: OperatorDecl)
    ensures
        #[trigger] operators_of(v.push(x)) == operators_of(v).push(x.tree()),
{
    assert(v.push(x).drop_last() =~= v);
}

pub open spec fn conversions_of(v: Seq<ConversionDecl>) -> Seq<tree::ConversionDecl>
    decreases v,
{
    if v.len() == 0 {
        seq![]
    } else {
        conversions_of(v.drop_last()).push(v.last().tree())
    }
}

pub broadcast proof fn conversions_of_index(v: Seq<ConversionDecl>)
    ensures
        #[trigger] conversions_of(v).len() == v.len(),
        forall|i: int| 0 <= i < v.len() ==> #[trigger] conversions_of(v)[i] == v[i].tree(),
    decreases v.len(),
{
    if v.len() > 0 {
        let front = v.drop_last();
        conversions_of_index(front);
        assert forall|i: int| 0 <= i < v.len() implies #[trigger] conversions_of(v)[i] == v[i].tree() by {
            if i < front.len() {
                assert(conversions_of(front)[i] == front[i].tree());
            }
        }
    }
}

pub broadcast proof fn conversions_of_push(v: Seq<ConversionDecl>, x: ConversionDecl)
    ensures
        #[trigger] conversions_of(v.push(x)) == conversions_of(v).push(x.tree()),
{
    assert(v.push(x).drop_last() =~= v);
}

pub open spec fn functions_of(v: Seq<Function>) -> Seq<tree::Function>
    decreases v,
{
    if v.len() == 0 {
        seq![]
    } else {
        functions_of(v.drop_last()).push(v.last().tree())
    }
}

pub broadcast proof fn functions_of_index(v: Seq<Function>)
    ensures
        #[trigger] functions_of(v).len() == v.len(),
        forall|i: int| 0 <= i < v.len() ==> #[trigger] functions_of(v)[i] == v[i].tree(),
    decreases v.len(),
{
    if v.len() > 0 {
        let front = v.drop_last();
        functions_of_index(front);
        assert forall|i: int| 0 <= i < v.len() implies #[trigger] functions_of(v)[i] == v[i].tree() by {
            if i < front.len() {
                assert(functions_of(front)[i] == front[i].tree());
            }
        }
    }
}

pub broadcast proof fn functions_of_push(v: Seq<Function>, x: Function)
    ensures
        #[trigger] functions_of(v.push(x)) == functions_of(v).push(x.tree()),
{
    assert(v.push(x).drop_last() =~= v);
}

pub open spec fn variants_of(v: Seq<VariantDecl>) -> Seq<tree::VariantDecl>
    decreases v,
{
    if v.len() == 0 {
        seq![]
    } else {
        variants_of(v.drop_last()).push(v.last().tree())
    }
}

pub broadcast proof fn variants_of_index(v: Seq<VariantDecl>)
    ensures
        #[trigger] variants_of(v).len() == v.len(),
        forall|i: int| 0 <= i < v.len() ==> #[trigger] variants_of(v)[i] == v[i].tree(),
    decreases v.len(),
{
    if v.len() > 0 {
        let front = v.drop_last();
        variants_of_index(front);
        assert forall|i: int| 0 <= i < v.len() implies #[trigger] variants_of(v)[i] == v[i].tree() by {
            if i < front.len() {
                assert(variants_of(front)[i] == front[i].tree());
            }
        }
    }
}

pub broadcast proof fn variants_of_push(v: Seq<VariantDecl>, x: VariantDecl)
    ensures
        #[trigger] variants_of(v.push(x)) == variants_of(v).push(x.tree()),
{
    assert(v.push(x).drop_last() =~= v);
}

pub open spec fn trait_methods_of(v: Seq<TraitMethod>) -> Seq<tree::TraitMethod>
    decreases v,
{
    if v.len() == 0 {
        seq![]
    } else {
        trait_methods_of(v.drop_last()).push(v.last().tree())
    }
}

pub broadcast proof fn trait_methods_of_index(v: Seq<TraitMethod>)
    ensures
        #[trigger] trait_methods_of(v).len() == v.len(),
        forall|i: int| 0 <= i < v.len() ==> #[trigger] trait_methods_of(v)[i] == v[i].tree(),
    decreases v.len(),
{
    if v.len() > 0 {
        let front = v.drop_last();
        trait_methods_of_index(front);
        assert forall|i: int| 0 <= i < v.len() implies #[trigger] trait_methods_of(v)[i] == v[i].tree() by {
            if i < front.len() {
                assert(trait_methods_of(front)[i] == front[i].tree());
            }
        }
    }
}

pub broadcast proof fn trait_methods_of_push(v: Seq<TraitMethod>, x: TraitMethod)
    ensures
        #[trigger] trait_methods_of(v.push(x)) == trait_methods_of(v).push(x.tree()),
{
    assert(v.push(x).drop_last() =~= v);
}

pub open spec fn extension_members_of(v: Seq<ExtensionMember>) -> Seq<tree::ExtensionMember>
    decreases v,
{
    if v.len() == 0 {
        seq![]
    } else {
        extension_members_of(v.drop_last()).push(v.last().tree())
    }
}

pub broadcast proof fn extension_members_of_index(v: Seq<ExtensionMember>)
    ensures
        #[trigger] extension_members_of(v).len() == v.len(),
        forall|i: int| 0 <= i < v.len() ==> #[trigger] extension_members_of(v)[i] == v[i].tree(),
    decreases v.len(),
{
    if v.len() > 0 {
        let front = v.drop_last();
        extension_members_of_index(front);
        assert forall|i: int| 0 <= i < v.len() implies #[trigger] extension_members_of(v)[i] == v[i].tree() by {
            if i < front.len() {
                assert(extension_members_of(front)[i] == front[i].tree());
            }
        }
    }
}

pub broadcast proof fn extension_members_of_push(v: Seq<ExtensionMember>, x: ExtensionMember)
    ensures
        #[trigger] extension_members_of(v.push(x)) == extension_members_of(v).push(x.tree()),
{
    assert(v.push(x).drop_last() =~= v);
}

pub open spec fn extern_members_of(v: Seq<ExternMember>) -> Seq<tree::ExternMember>
    decreases v,
{
    if v.len() == 0 {
        seq![]
    } else {
        extern_members_of(v.drop_last()).push(v.last().tree())
    }
}

pub broadcast proof fn extern_members_of_index(v: Seq<ExternMember>)
    ensures
        #[trigger] extern_members_of(v).len() == v.len(),
        forall|i: int| 0 <= i < v.len() ==> #[trigger] extern_members_of(v)[i] == v[i].tree(),
    decreases v.len(),
{
    if v.len() > 0 {
        let front = v.drop_last();
        extern_members_of_index(front);
        assert forall|i: int| 0 <= i < v.len() implies #[trigger] extern_members_of(v)[i] == v[i].tree() by {
            if i < front.len() {
                assert(extern_members_of(front)[i] == front[i].tree());
            }
        }
    }
}

pub broadcast proof fn extern_members_of_push(v: Seq<ExternMember>, x: ExternMember)
    ensures
        #[trigger] extern_members_of(v.push(x)) == extern_members_of(v).push(x.tree()),
{
    assert(v.push(x).drop_last() =~= v);
}

pub open spec fn attributes_of(v: Seq<Attribute>) -> Seq<tree::Attribute>
    decreases v,
{
    if v.len() == 0 {
        seq![]
    } else {
        attributes_of(v.drop_last()).push(v.last().tree())
    }
}

pub broadcast proof fn attributes_of_index(v: Seq<Attribute>)
    ensures
        #[trigger] attributes_of(v).len() == v.len(),
        forall|i: int| 0 <= i < v.len() ==> #[trigger] attributes_of(v)[i] == v[i].tree(),
    decreases v.len(),
{
    if v.len() > 0 {
        let front = v.drop_last();
        attributes_of_index(front);
        assert forall|i: int| 0 <= i < v.len() implies #[trigger] attributes_of(v)[i] == v[i].tree() by {
            if i < front.len() {
                assert(attributes_of(front)[i] == front[i].tree());
            }
        }
    }
}

pub broadcast proof fn attributes_of_push(v: Seq<Attribute>, x: Attribute)
    ensures
        #[trigger] attributes_of(v.push(x)) == attributes_of(v).push(x.tree()),
{
    assert(v.push(x).drop_last() =~= v);
}

pub open spec fn attribute_args_of(v: Seq<AttributeArg>) -> Seq<tree::AttributeArg>
    decreases v,
{
    if v.len() == 0 {
        seq![]
    } else {
        attribute_args_of(v.drop_last()).push(v.last().tree())
    }
}

pub broadcast proof fn attribute_args_of_index(v: Seq<AttributeArg>)
    ensures
        #[trigger] attribute_args_of(v).len() == v.len(),
        forall|i: int| 0 <= i < v.len() ==> #[trigger] attribute_args_of(v)[i] == v[i].tree(),
    decreases v.len(),
{
    if v.len() > 0 {
        let front = v.drop_last();
        attribute_args_of_index(front);
        assert forall|i: int| 0 <= i < v.len() implies #[trigger] attribute_args_of(v)[i] == v[i].tree() by {
            if i < front.len() {
                assert(attribute_args_of(front)[i] == front[i].tree());
            }
        }
    }
}

pub broadcast proof fn attribute_args_of_push(v: Seq<AttributeArg>, x: AttributeArg)
    ensures
        #[trigger] attribute_args_of(v.push(x)) == attribute_args_of(v).push(x.tree()),
{
    assert(v.push(x).drop_last() =~= v);
}

pub open spec fn items_of(v: Seq<Item>) -> Seq<tree::Item>
    decreases v,
{
    if v.len() == 0 {
        seq![]
    } else {
        items_of(v.drop_last()).push(v.last().tree())
    }
}

pub broadcast proof fn items_of_index(v: Seq<Item>)
    ensures
        #[trigger] items_of(v).len() == v.len(),
        forall|i: int| 0 <= i < v.len() ==> #[trigger] items_of(v)[i] == v[i].tree(),
    decreases v.len(),
{
    if v.len() > 0 {
        let front = v.drop_last();
        items_of_index(front);
        assert forall|i: int| 0 <= i < v.len() implies #[trigger] items_of(v)[i] == v[i].tree() by {
            if i < front.len() {
                assert(items_of(front)[i] == front[i].tree());
            }
        }
    }
}

pub broadcast proof fn items_of_push(v: Seq<Item>, x: Item)
    ensures
        #[trigger] items_of(v.push(x)) == items_of(v).push(x.tree()),
{
    assert(v.push(x).drop_last() =~= v);
}

/// The texts of a list of names.
pub open spec fn names_of(v: Seq<String>) -> Seq<Seq<char>> {
    Seq::new(v.len(), |i: int| v[i]@)
}

pub broadcast proof fn names_of_push(v: Seq<String>, x: String)
    ensures
        #[trigger] names_of(v.push(x)) == names_of(v).push(x@),
{
    assert(names_of(v.push(x)) =~= names_of(v).push(x@));
}

/// What `tree()` makes of lists.
pub broadcast group group_lists {
    types_of_index,
    types_of_push,
    generics_of_index,
    generics_of_push,
    constraints_of_index,
    constraints_of_push,
    params_of_index,
    params_of_push,
    parts_of_index,
    parts_of_push,
    exprs_of_index,
    exprs_of_push,
    args_of_index,
    args_of_push,
    entries_of_index,
    entries_of_push,
    inits_of_index,
    inits_of_push,
    arms_of_index,
    arms_of_push,
    patterns_of_index,
    patterns_of_push,
    stmts_of_index,
    stmts_of_push,
    targets_of_index,
    targets_of_push,
    fields_of_index,
    fields_of_push,
    constructors_of_index,
    constructors_of_push,
    destructors_of_index,
    destructors_of_push,
    properties_of_index,
    properties_of_push,
    operators_of_index,
    operators_of_push,
    conversions_of_index,
    conversions_of_push,
    functions_of_index,
    functions_of_push,
    variants_of_index,
    variants_of_push,
    trait_methods_of_index,
    trait_methods_of_push,
    extension_members_of_index,
    extension_members_of_push,
    extern_members_of_index,
    extern_members_of_push,
    attributes_of_index,
    attributes_of_push,
    attribute_args_of_index,
    attribute_args_of_push,
    items_of_index,
    items_of_push,
    names_of_push,
}

} // verus!
