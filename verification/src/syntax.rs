//! The grammar-shaped syntax tree that lowering consumes.
//!
//! The external parser is expected to deliver a tree of this shape: the
//! expression grammar's precedence cascade is kept (expression, simple
//! expression, logical expression, logical term, logical factor,
//! relation, arithmetic expression, term, factor, primary), and every
//! recognized-but-unsupported construct is present as a variant carrying
//! its first token, so that lowering can reject it with a located error.

use vstd::prelude::*;
use crate::ast::Token;

verus! {

/// A dotted name: an identifier followed by further identifiers.
#[derive(Debug, PartialEq, Eq)]
pub struct SynName {
    pub first: Token,
    pub rest: Vec<Token>,
}

/// An array subscript: a bare colon or an expression.
#[derive(Debug, PartialEq, Eq)]
pub enum SynSubscript {
    Colon(Token),
    Expression(Box<SynExpression>),
}

/// One part of a qualified reference.
#[derive(Debug, PartialEq, Eq)]
pub struct SynComponentRefPart {
    pub ident: Token,
    pub subs: Option<Vec<SynSubscript>>,
}

/// A qualified reference; `local` when it began with a leading `.`.
#[derive(Debug, PartialEq, Eq)]
pub struct SynComponentReference {
    pub local: bool,
    pub first: Token,
    pub rest: Vec<SynComponentRefPart>,
}

/// One function argument; named arguments, partial applications and
/// comprehensions are recognized but unsupported.
#[derive(Debug, PartialEq, Eq)]
pub enum SynFunctionArgument {
    Expression(Box<SynExpression>),
    PartialApplication(Token),
    Named(Token),
    Comprehension(Token),
}

/// A call's parenthesized argument list.
#[derive(Debug, PartialEq, Eq)]
pub struct SynFunctionCallArgs {
    pub args: Vec<SynFunctionArgument>,
}

/// A primary expression.
#[derive(Debug, PartialEq, Eq)]
pub enum SynPrimary {
    /// A component reference, or a function call when arguments follow.
    Component { comp: SynComponentReference, args: Option<SynFunctionCallArgs> },
    UnsignedInteger(Token),
    UnsignedReal(Token),
    Str(Token),
    True(Token),
    False(Token),
    End(Token),
    /// An array constructor; unsupported.
    Array(Token),
    /// A parenthesized range; unsupported.
    RangePrimary(Token),
    /// A parenthesized output expression list; more than one entry, or a
    /// trailing array-subscript part, is unsupported.
    Output { exprs: Vec<SynExpression>, trailer: Option<Token>, paren: Token },
    /// A call of one of the global built-ins `der`, `initial`, `pure`.
    GlobalCall { keyword: Token, args: SynFunctionCallArgs },
}

/// A factor: a primary possibly raised to further primaries.
#[derive(Debug, PartialEq, Eq)]
pub struct SynFactor {
    pub base: SynPrimary,
    pub exponents: Vec<SynPrimary>,
}

/// A multiplicative operator.
#[derive(Debug, PartialEq, Eq)]
pub enum SynMulOp {
    Star(Token),
    Slash(Token),
    DotStar(Token),
    DotSlash(Token),
}

#[derive(Debug, PartialEq, Eq)]
pub struct SynMulFactor {
    pub op: SynMulOp,
    pub factor: SynFactor,
}

/// A term: factors joined by multiplicative operators.
#[derive(Debug, PartialEq, Eq)]
pub struct SynTerm {
    pub first: SynFactor,
    pub rest: Vec<SynMulFactor>,
}

/// An additive operator.
#[derive(Debug, PartialEq, Eq)]
pub enum SynAddOp {
    Plus(Token),
    Minus(Token),
    DotPlus(Token),
    DotMinus(Token),
}

#[derive(Debug, PartialEq, Eq)]
pub struct SynAddTerm {
    pub op: SynAddOp,
    pub term: SynTerm,
}

/// An arithmetic expression: an optional sign on the first term, then
/// terms joined by additive operators.
#[derive(Debug, PartialEq, Eq)]
pub struct SynArithmeticExpression {
    pub sign: Option<SynAddOp>,
    pub first: SynTerm,
    pub rest: Vec<SynAddTerm>,
}

/// A relational operator.
#[derive(Debug, PartialEq, Eq)]
pub enum SynRelOp {
    EquEqu(Token),
    Gt(Token),
    Lt(Token),
    GtEqu(Token),
    LtEqu(Token),
    LtGt(Token),
}

#[derive(Debug, PartialEq, Eq)]
pub struct SynRelationTail {
    pub op: SynRelOp,
    pub rhs: SynArithmeticExpression,
}

/// A relation: one arithmetic expression, optionally compared to one
/// more (relations are non-chained).
#[derive(Debug, PartialEq, Eq)]
pub struct SynRelation {
    pub lhs: SynArithmeticExpression,
    pub tail: Option<SynRelationTail>,
}

/// A logical factor: an optional `not` on a relation.
#[derive(Debug, PartialEq, Eq)]
pub struct SynLogicalFactor {
    pub not_token: Option<Token>,
    pub relation: SynRelation,
}

/// A logical term: factors joined by `and`.
#[derive(Debug, PartialEq, Eq)]
pub struct SynLogicalTerm {
    pub first: SynLogicalFactor,
    pub rest: Vec<SynLogicalFactor>,
}

/// A logical expression: terms joined by `or`.
#[derive(Debug, PartialEq, Eq)]
pub struct SynLogicalExpression {
    pub first: SynLogicalTerm,
    pub rest: Vec<SynLogicalTerm>,
}

/// A range tail: `: step_or_end` or `: step : end`.
#[derive(Debug, PartialEq, Eq)]
pub struct SynRangeTail {
    pub step_or_end: SynLogicalExpression,
    pub end: Option<SynLogicalExpression>,
}

/// A simple expression: a logical expression or a range.
#[derive(Debug, PartialEq, Eq)]
pub struct SynSimpleExpression {
    pub first: SynLogicalExpression,
    pub range: Option<SynRangeTail>,
}

/// An expression; if-expressions are recognized but unsupported.
#[derive(Debug, PartialEq, Eq)]
pub enum SynExpression {
    Simple(Box<SynSimpleExpression>),
    If(Token),
}

/// An equation.
#[derive(Debug, PartialEq, Eq)]
pub enum SynEquation {
    /// `lhs = rhs;`, or a bare call when `rhs` is absent.
    Simple { lhs: SynSimpleExpression, rhs: Option<SynExpression> },
    Connect { lhs: SynComponentReference, rhs: SynComponentReference },
    If { blocks: Vec<SynEquationBlock>, else_eqs: Option<Vec<SynEquation>> },
    When { blocks: Vec<SynEquationBlock> },
    /// A for-equation; unsupported.
    For(Token),
}

/// A guarded equation list.
#[derive(Debug, PartialEq, Eq)]
pub struct SynEquationBlock {
    pub cond: SynExpression,
    pub eqs: Vec<SynEquation>,
}

/// A statement.
#[derive(Debug, PartialEq, Eq)]
pub enum SynStatement {
    Assignment { comp: SynComponentReference, value: SynExpression },
    Call { comp: SynComponentReference, args: SynFunctionCallArgs },
    Break(Token),
    Return(Token),
    For(Token),
    If(Token),
    When(Token),
    While(Token),
    CallOutput(Token),
}

/// A guarded statement list.
#[derive(Debug, PartialEq, Eq)]
pub struct SynStatementBlock {
    pub cond: SynExpression,
    pub stmts: Vec<SynStatement>,
}

/// An equation section.
#[derive(Debug, PartialEq, Eq)]
pub struct SynEquationSection {
    pub initial: bool,
    pub equations: Vec<SynEquation>,
}

/// An algorithm section.
#[derive(Debug, PartialEq, Eq)]
pub struct SynAlgorithmSection {
    pub initial: bool,
    pub statements: Vec<SynStatement>,
}

/// A declaration's modification: a class modification (whose arguments
/// are not actioned), `= expr`, or `= break` (unsupported).
#[derive(Debug, PartialEq, Eq)]
pub enum SynModification {
    Class(Token),
    Expression(SynExpression),
    Break(Token),
}

/// One declared identifier of a component clause.
#[derive(Debug, PartialEq, Eq)]
pub struct SynComponentDeclaration {
    pub ident: Token,
    pub modification: Option<SynModification>,
    pub description: Vec<Token>,
}

/// A component clause: shared prefixes, the type, the declarations.
#[derive(Debug, PartialEq, Eq)]
pub struct SynComponentClause {
    pub connection: crate::ast::Connection,
    pub variability: crate::ast::Variability,
    pub causality: crate::ast::Causality,
    pub type_specifier: SynName,
    pub components: Vec<SynComponentDeclaration>,
}

/// An element of an element list.
#[derive(Debug, PartialEq, Eq)]
pub enum SynElement {
    ClassDefinition(Box<SynClassDefinition>),
    ComponentClause(SynComponentClause),
    Import { name: SynName },
    /// An import under another name; unsupported.
    ImportRenaming(Token),
    Extends { name: SynName, modification: Option<Token>, annotation: Option<Token> },
    /// A replaceable element; unsupported.
    Replaceable(Token),
}

/// A list of elements.
#[derive(Debug, PartialEq, Eq)]
pub struct SynElementList {
    pub elements: Vec<SynElement>,
}

/// A section of a composition after the leading element list.
#[derive(Debug, PartialEq, Eq)]
pub enum SynCompositionSection {
    /// A `public` element list; unsupported.
    Public(Token),
    /// A `protected` element list; unsupported.
    Protected(Token),
    EquationSection(SynEquationSection),
    AlgorithmSection(SynAlgorithmSection),
}

/// A composition: the leading element list and further sections.
#[derive(Debug, PartialEq, Eq)]
pub struct SynComposition {
    pub element_list: SynElementList,
    pub sections: Vec<SynCompositionSection>,
}

/// A class specifier; only the long standard form is supported.
#[derive(Debug, PartialEq, Eq)]
pub enum SynClassSpecifier {
    Standard { name: Token, composition: SynComposition },
    /// `extends` class specifier; unsupported.
    ExtendsSpecifier(Token),
    /// `der` class specifier; unsupported.
    Der(Token),
    /// Enumeration short specifier; unsupported.
    EnumSpecifier(Token),
    /// Type short specifier; unsupported.
    TypeSpecifier(Token),
}

/// A class definition: the optional `encapsulated` prefix and the
/// specifier.
#[derive(Debug, PartialEq, Eq)]
pub struct SynClassDefinition {
    pub encapsulated: bool,
    pub specifier: SynClassSpecifier,
}

/// A stored definition: an optional `within` clause and the top-level
/// classes in source order.
#[derive(Debug, PartialEq, Eq)]
pub struct SynStoredDefinition {
    pub within: Option<SynName>,
    pub classes: Vec<SynClassDefinition>,
}

} // verus!
