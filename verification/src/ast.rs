//! The parse tree the engine walks: items, statements, expressions,
//! patterns, paths, use trees and unresolved (syntactic) types, each
//! carrying the byte span of its source text.

use vstd::prelude::*;

use crate::span::Span;

verus! {

/// An identifier with its span.
#[derive(Debug)]
pub struct Ident {
    pub name: String,
    pub span: Span,
}

/// The disambiguator that controls where a path's lookup begins.
#[derive(Clone, Copy, PartialEq, Eq, Structural, Debug)]
pub enum PathKind {
    Plain,
    Crate,
    Dep,
    Super,
}

/// One segment of a path.
#[derive(Debug)]
pub struct PathSegment {
    pub ident: Ident,
}

/// A (possibly qualified) path, with the span of the whole path.
#[derive(Debug)]
pub struct Path {
    pub segments: Vec<PathSegment>,
    pub kind: PathKind,
    pub span: Span,
}

/// A use-tree: a path prefix and either a final segment (with an
/// optional alias) or a braced list of nested trees.
#[derive(Debug)]
pub struct UseTree {
    pub prefix: Path,
    pub kind: UseTreeKind,
}

#[derive(Debug)]
pub enum UseTreeKind {
    Path(Ident, Option<Ident>),
    List(Vec<UseTree>),
}

/// A binding pattern.
#[derive(Debug)]
pub enum Pattern {
    Identifier(Ident),
    Mutable(Box<Pattern>),
    Tuple(Vec<Pattern>),
    Struct(Path, Vec<(Ident, Pattern)>),
}

/// A declared generic parameter.
#[derive(Debug)]
pub enum UnresolvedGeneric {
    Variable(Ident),
    Numeric(Ident),
    Resolved,
}

/// A syntactic type, with its span when the parser recorded one.
#[derive(Debug)]
pub struct UnresolvedType {
    pub typ: UnresolvedTypeData,
    pub span: Option<Span>,
}

#[derive(Debug)]
pub enum UnresolvedTypeData {
    Array(Box<UnresolvedType>),
    Slice(Box<UnresolvedType>),
    Parenthesized(Box<UnresolvedType>),
    Named(Path, Vec<UnresolvedType>),
    TraitAsType(Path, Vec<UnresolvedType>),
    MutableReference(Box<UnresolvedType>),
    Tuple(Vec<UnresolvedType>),
    Function(Vec<UnresolvedType>, Box<UnresolvedType>, Box<UnresolvedType>),
    AsTraitPath(Box<AsTraitPath>),
    Expression,
    FmtStr,
    Str,
    Unspecified,
    Quoted,
    FieldElement,
    Integer,
    Bool,
    Unit,
    Resolved,
    Error,
}

/// A `<Type as Trait>::item` path; the engine only looks into its trait
/// path.
#[derive(Debug)]
pub struct AsTraitPath {
    pub trait_path: Path,
}

/// A function's declared return type.
#[derive(Debug)]
pub enum FunctionReturnType {
    Default,
    Ty(UnresolvedType),
}

/// One declared parameter of a function.
#[derive(Debug)]
pub struct Param {
    pub pattern: Pattern,
    pub typ: UnresolvedType,
}

/// A function definition.
#[derive(Debug)]
pub struct NoirFunction {
    pub generics: Vec<UnresolvedGeneric>,
    pub parameters: Vec<Param>,
    pub return_type: FunctionReturnType,
    pub where_clause: Vec<UnresolvedType>,
    pub body: BlockExpression,
}

/// A trait impl block.
#[derive(Debug)]
pub struct NoirTraitImpl {
    pub impl_generics: Vec<UnresolvedGeneric>,
    pub items: Vec<TraitImplItem>,
}

#[derive(Debug)]
pub enum TraitImplItem {
    Function(NoirFunction),
    Constant,
    Type,
}

/// An inherent impl block, with the span of each method.
#[derive(Debug)]
pub struct TypeImpl {
    pub generics: Vec<UnresolvedGeneric>,
    pub methods: Vec<(NoirFunction, Span)>,
}

/// A type alias declaration.
#[derive(Debug)]
pub struct NoirTypeAlias {
    pub typ: UnresolvedType,
}

/// A struct declaration.
#[derive(Debug)]
pub struct NoirStruct {
    pub generics: Vec<UnresolvedGeneric>,
    pub fields: Vec<(Ident, UnresolvedType)>,
}

/// A trait declaration.
#[derive(Debug)]
pub struct NoirTrait {
    pub items: Vec<TraitItem>,
}

#[derive(Debug)]
pub enum TraitItem {
    Function {
        generics: Vec<UnresolvedGeneric>,
        parameters: Vec<(Ident, UnresolvedType)>,
        return_type: FunctionReturnType,
        where_clause: Vec<UnresolvedType>,
        body: Option<BlockExpression>,
    },
    Constant { typ: UnresolvedType, default_value: Option<Expression> },
    Type,
}

/// A block of statements.
#[derive(Debug)]
pub struct BlockExpression {
    pub statements: Vec<Statement>,
}

/// A statement with its span.
#[derive(Debug)]
pub struct Statement {
    pub kind: StatementKind,
    pub span: Span,
}

#[derive(Debug)]
pub enum StatementKind {
    Let(LetStatement),
    Constrain(ConstrainStatement),
    Expression(Expression),
    Assign(AssignStatement),
    For(ForLoopStatement),
    Comptime(Box<Statement>),
    Semi(Expression),
    Break,
    Continue,
    Error,
}

/// A let binding.
#[derive(Debug)]
pub struct LetStatement {
    pub pattern: Pattern,
    pub typ: UnresolvedType,
    pub expression: Expression,
}

/// A constrain (assert) statement with its optional message.
#[derive(Debug)]
pub struct ConstrainStatement {
    pub expr: Expression,
    pub message: Option<Expression>,
}

/// An assignment.
#[derive(Debug)]
pub struct AssignStatement {
    pub lvalue: LValue,
    pub expression: Expression,
}

/// A for loop.
#[derive(Debug)]
pub struct ForLoopStatement {
    pub identifier: Ident,
    pub range: ForRange,
    pub block: Expression,
}

#[derive(Debug)]
pub enum ForRange {
    Range(Expression, Expression),
    Array(Expression),
}

/// The left-hand side of an assignment.
#[derive(Debug)]
pub enum LValue {
    Ident(Ident),
    MemberAccess(Box<LValue>),
    Index(Box<LValue>, Expression),
    Dereference(Box<LValue>),
}

/// An expression with its span.
#[derive(Debug)]
pub struct Expression {
    pub kind: ExpressionKind,
    pub span: Span,
}

#[derive(Debug)]
pub enum ExpressionKind {
    Literal(Literal),
    Block(BlockExpression),
    Prefix(Box<Expression>),
    Index(Box<IndexExpression>),
    Call(Box<CallExpression>),
    MethodCall(Box<MethodCallExpression>),
    Constructor(Box<ConstructorExpression>),
    MemberAccess(Box<MemberAccessExpression>),
    Cast(Box<CastExpression>),
    Infix(Box<InfixExpression>),
    If(Box<IfExpression>),
    Variable(Path),
    Tuple(Vec<Expression>),
    Lambda(Box<Lambda>),
    Parenthesized(Box<Expression>),
    Unquote(Box<Expression>),
    Comptime(BlockExpression),
    Unsafe(BlockExpression),
    AsTraitPath(AsTraitPath),
    Quote,
    Resolved,
    Error,
}

#[derive(Debug)]
pub enum Literal {
    Array(ArrayLiteral),
    Slice(ArrayLiteral),
    Bool,
    Integer,
    Str,
    RawStr,
    FmtStr,
    Unit,
}

#[derive(Debug)]
pub enum ArrayLiteral {
    Standard(Vec<Expression>),
    Repeated { repeated_element: Box<Expression>, length: Box<Expression> },
}

#[derive(Debug)]
pub struct IndexExpression {
    pub collection: Expression,
    pub index: Expression,
}

#[derive(Debug)]
pub struct CallExpression {
    pub func: Expression,
    pub arguments: Vec<Expression>,
}

#[derive(Debug)]
pub struct MethodCallExpression {
    pub object: Expression,
    pub arguments: Vec<Expression>,
}

#[derive(Debug)]
pub struct ConstructorExpression {
    pub typ_path: Path,
    pub fields: Vec<(Ident, Expression)>,
}

#[derive(Debug)]
pub struct MemberAccessExpression {
    pub lhs: Expression,
    pub rhs: Ident,
}

#[derive(Debug)]
pub struct CastExpression {
    pub lhs: Expression,
}

#[derive(Debug)]
pub struct InfixExpression {
    pub lhs: Expression,
    pub rhs: Expression,
}

#[derive(Debug)]
pub struct IfExpression {
    pub condition: Expression,
    pub consequence: Expression,
    pub alternative: Option<Expression>,
}

#[derive(Debug)]
pub struct Lambda {
    pub parameters: Vec<(Pattern, UnresolvedType)>,
    pub body: Expression,
}

/// One top-level item, with its span.
#[derive(Debug)]
pub struct Item {
    pub kind: ItemKind,
    pub span: Span,
}

#[derive(Debug)]
pub enum ItemKind {
    Import(UseTree),
    Submodules(ParsedSubModule),
    Function(NoirFunction),
    TraitImpl(NoirTraitImpl),
    Impl(TypeImpl),
    Global(LetStatement),
    TypeAlias(NoirTypeAlias),
    Struct(NoirStruct),
    Trait(NoirTrait),
    ModuleDecl,
}

/// An inline submodule: `mod name { ... }`.
#[derive(Debug)]
pub struct ParsedSubModule {
    pub name: String,
    pub contents: ParsedModule,
}

/// A parsed source file: its top-level items.
#[derive(Debug)]
pub struct ParsedModule {
    pub items: Vec<Item>,
}

} // verus!
