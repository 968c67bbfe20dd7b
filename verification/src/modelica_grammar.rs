//! Lowering of the grammar-shaped syntax tree into the intermediate
//! representation.
//!
//! The grammar's precedence cascade is collapsed into a single
//! expression tree: multiplicative, additive and logical operators fold
//! left-associative; `^` joins one primary to exactly one primary (a
//! longer chain is malformed input); relations are non-chained; a unary
//! sign wraps only the first term.  Components are built one per
//! declared identifier, sharing the clause's prefixes and type, with the
//! default start value chosen by the declared primitive type.  Every
//! recognized-but-unsupported construct is rejected with a located
//! `Unimplemented` error.
//!
//! Each executable function is specified by the `spec_lower_*` function
//! of the same shape and returns exactly what that function states, or
//! exactly the error it states.

use vstd::prelude::*;
use crate::ast::{
    ClassDefinition, ClassMap, ClassModel, Component, ComponentModel, ComponentRefPart,
    ComponentRefPartModel, ComponentReference, ComponentReferenceModel, Connection, Equation,
    EquationBlock, EquationBlockModel, EquationModel, Expression, ExpressionModel, ExtendModel,
    Name, OpBinaryModel, OpUnaryModel, Statement, StatementBlock, StatementBlockModel,
    StatementModel, StoredDefinition, StoredDefinitionModel, Subscript, SubscriptModel,
    TerminalType, Token, TokenModel, Variability, Causality, Extend, class_map_wf, class_model,
    class_entries_model, class_wf, classes_deep_wf, comp_entries_model, comp_model,
    connection_model, causality_model, eq_block_model, eq_blocks_model, eq_model, eqs_model,
    expr_model, exprs_model, extend_model, join_texts, lemma_class_entries_model,
    lemma_classes_deep_wf, lemma_subscripts_model, sd_model, stmt_block_model, stmt_model,
    stmts_model, subscript_model, subscripts_model, tokens_model, variability_model,
};
use crate::dae::comps_model;
use crate::error::{Error, ErrorModel, error_model};
use crate::flatten::{centry_insert, lemma_centry_index_of, lemma_centry_vs_keys, sd_wf};
use crate::omap::{OrderedMap, lemma_seq_index_of, seq_index_of};
use crate::syntax::{
    SynAddOp, SynAddTerm, SynAlgorithmSection, SynArithmeticExpression, SynClassDefinition,
    SynClassSpecifier, SynComponentClause, SynComponentDeclaration, SynComponentRefPart,
    SynComponentReference, SynComposition, SynCompositionSection, SynElement, SynElementList,
    SynEquation, SynEquationBlock, SynEquationSection, SynExpression, SynFactor,
    SynFunctionArgument, SynFunctionCallArgs, SynLogicalExpression, SynLogicalFactor,
    SynLogicalTerm, SynModification, SynMulFactor, SynMulOp, SynName, SynPrimary, SynRelOp,
    SynRelation, SynRelationTail, SynRangeTail, SynSimpleExpression, SynStatement, SynTerm,
    SynStatementBlock, SynStoredDefinition, SynSubscript,
};
use crate::visitor::synthetic_token_model;

verus! {

// ---------------------------------------------------------------------------
// Names, descriptions, operators
// ---------------------------------------------------------------------------

/// The name's tokens in order.
pub open spec fn spec_lower_name(n: SynName) -> Seq<TokenModel> {
    seq![n.first@] + tokens_model(n.rest@)
}

/// The dotted text of a name.
pub open spec fn spec_name_text(n: SynName) -> Seq<char> {
    join_texts(spec_lower_name(n).map_values(|t: TokenModel| t.text), '.')
}

/// A string token's text with the outer quotes stripped.
pub open spec fn spec_strip_quotes(t: TokenModel) -> TokenModel {
    if t.text.len() >= 2 {
        TokenModel { text: t.text.subrange(1, t.text.len() - 1), ..t }
    } else {
        t
    }
}

/// The description tokens, quotes stripped.
pub open spec fn spec_lower_description(toks: Seq<Token>) -> Seq<TokenModel> {
    Seq::new(toks.len(), |i: int| spec_strip_quotes(toks[i]@))
}

pub open spec fn mul_op_model(op: SynMulOp) -> OpBinaryModel {
    match op {
        SynMulOp::Star(t) => OpBinaryModel::Mul(t@),
        SynMulOp::Slash(t) => OpBinaryModel::Div(t@),
        SynMulOp::DotStar(t) => OpBinaryModel::MulElem(t@),
        SynMulOp::DotSlash(t) => OpBinaryModel::DivElem(t@),
    }
}

pub open spec fn add_op_binary_model(op: SynAddOp) -> OpBinaryModel {
    match op {
        SynAddOp::Plus(t) => OpBinaryModel::Add(t@),
        SynAddOp::Minus(t) => OpBinaryModel::Sub(t@),
        SynAddOp::DotPlus(t) => OpBinaryModel::AddElem(t@),
        SynAddOp::DotMinus(t) => OpBinaryModel::SubElem(t@),
    }
}

pub open spec fn add_op_unary_model(op: SynAddOp) -> OpUnaryModel {
    match op {
        SynAddOp::Plus(t) => OpUnaryModel::Plus(t@),
        SynAddOp::Minus(t) => OpUnaryModel::Minus(t@),
        SynAddOp::DotPlus(t) => OpUnaryModel::DotPlus(t@),
        SynAddOp::DotMinus(t) => OpUnaryModel::DotMinus(t@),
    }
}

pub open spec fn rel_op_model(op: SynRelOp) -> OpBinaryModel {
    match op {
        SynRelOp::EquEqu(t) => OpBinaryModel::Eq(t@),
        SynRelOp::Gt(t) => OpBinaryModel::Gt(t@),
        SynRelOp::Lt(t) => OpBinaryModel::Lt(t@),
        SynRelOp::GtEqu(t) => OpBinaryModel::Ge(t@),
        SynRelOp::LtEqu(t) => OpBinaryModel::Le(t@),
        SynRelOp::LtGt(t) => OpBinaryModel::Neq(t@),
    }
}

/// The token that locates a primary.
pub open spec fn primary_token(p: SynPrimary) -> TokenModel {
    match p {
        SynPrimary::Component { comp, .. } => comp.first@,
        SynPrimary::UnsignedInteger(t) => t@,
        SynPrimary::UnsignedReal(t) => t@,
        SynPrimary::Str(t) => t@,
        SynPrimary::True(t) => t@,
        SynPrimary::False(t) => t@,
        SynPrimary::End(t) => t@,
        SynPrimary::Array(t) => t@,
        SynPrimary::RangePrimary(t) => t@,
        SynPrimary::Output { paren, .. } => paren@,
        SynPrimary::GlobalCall { keyword, .. } => keyword@,
    }
}

// ---------------------------------------------------------------------------
// Expressions
// ---------------------------------------------------------------------------

#[verifier::opaque]
pub open spec fn spec_lower_subscript(s: SynSubscript) -> Result<SubscriptModel, ErrorModel>
    decreases s,
{
    match s {
        SynSubscript::Colon(t) => Ok(SubscriptModel::Range { token: t@ }),
        SynSubscript::Expression(e) => match spec_lower_expression(*e) {
            Ok(em) => Ok(SubscriptModel::Expression(em)),
            Err(err) => Err(err),
        },
    }
}

#[verifier::opaque]
pub open spec fn spec_lower_subscripts(s: Seq<SynSubscript>) -> Result<
    Seq<SubscriptModel>,
    ErrorModel,
>
    decreases s,
{
    if s.len() == 0 {
        Ok(Seq::empty())
    } else {
        match spec_lower_subscript(s[0]) {
            Err(err) => Err(err),
            Ok(m) => match spec_lower_subscripts(s.subrange(1, s.len() as int)) {
                Err(err) => Err(err),
                Ok(rest) => Ok(seq![m] + rest),
            },
        }
    }
}

#[verifier::opaque]
pub open spec fn spec_lower_cref_part(p: SynComponentRefPart) -> Result<
    ComponentRefPartModel,
    ErrorModel,
>
    decreases p,
{
    match p.subs {
        None => Ok(ComponentRefPartModel { ident: p.ident@, subs: None }),
        Some(v) => match spec_lower_subscripts(v@) {
            Err(err) => Err(err),
            Ok(subs) => Ok(ComponentRefPartModel { ident: p.ident@, subs: Some(subs) }),
        },
    }
}

#[verifier::opaque]
pub open spec fn spec_lower_cref_parts(s: Seq<SynComponentRefPart>) -> Result<
    Seq<ComponentRefPartModel>,
    ErrorModel,
>
    decreases s,
{
    if s.len() == 0 {
        Ok(Seq::empty())
    } else {
        match spec_lower_cref_part(s[0]) {
            Err(err) => Err(err),
            Ok(m) => match spec_lower_cref_parts(s.subrange(1, s.len() as int)) {
                Err(err) => Err(err),
                Ok(rest) => Ok(seq![m] + rest),
            },
        }
    }
}

/// The lowered reference: the leading identifier (never subscripted at
/// this position in the grammar) followed by the remaining parts.
#[verifier::opaque]
pub open spec fn spec_lower_cref(c: SynComponentReference) -> Result<
    ComponentReferenceModel,
    ErrorModel,
>
    decreases c,
{
    match spec_lower_cref_parts(c.rest@) {
        Err(err) => Err(err),
        Ok(rest) => Ok(
            ComponentReferenceModel {
                local: c.local,
                parts: seq![
                    ComponentRefPartModel {
                        ident: c.first@,
                        subs: None::<Seq<SubscriptModel>>,
                    },
                ] + rest,
            },
        ),
    }
}

#[verifier::opaque]
pub open spec fn spec_lower_function_argument(a: SynFunctionArgument) -> Result<
    ExpressionModel,
    ErrorModel,
>
    decreases a,
{
    match a {
        SynFunctionArgument::Expression(e) => spec_lower_expression(*e),
        SynFunctionArgument::PartialApplication(t) => Err(
            ErrorModel::Unimplemented { construct: "partial application"@, location: t@.location },
        ),
        SynFunctionArgument::Named(t) => Err(
            ErrorModel::Unimplemented { construct: "named arguments"@, location: t@.location },
        ),
        SynFunctionArgument::Comprehension(t) => Err(
            ErrorModel::Unimplemented { construct: "for indices"@, location: t@.location },
        ),
    }
}

#[verifier::opaque]
pub open spec fn spec_lower_function_arguments(s: Seq<SynFunctionArgument>) -> Result<
    Seq<ExpressionModel>,
    ErrorModel,
>
    decreases s,
{
    if s.len() == 0 {
        Ok(Seq::empty())
    } else {
        match spec_lower_function_argument(s[0]) {
            Err(err) => Err(err),
            Ok(m) => match spec_lower_function_arguments(s.subrange(1, s.len() as int)) {
                Err(err) => Err(err),
                Ok(rest) => Ok(seq![m] + rest),
            },
        }
    }
}

#[verifier::opaque]
pub open spec fn spec_lower_call_args(a: SynFunctionCallArgs) -> Result<
    Seq<ExpressionModel>,
    ErrorModel,
>
    decreases a,
{
    spec_lower_function_arguments(a.args@)
}

#[verifier::opaque]
pub open spec fn spec_lower_primary(p: SynPrimary) -> Result<ExpressionModel, ErrorModel>
    decreases p,
{
    match p {
        SynPrimary::Component { comp, args } => match spec_lower_cref(comp) {
            Err(err) => Err(err),
            Ok(cm) => match args {
                None => Ok(ExpressionModel::ComponentReference(cm)),
                Some(a) => match spec_lower_call_args(a) {
                    Err(err) => Err(err),
                    Ok(am) => Ok(ExpressionModel::FunctionCall { comp: cm, args: am }),
                },
            },
        },
        SynPrimary::UnsignedInteger(t) => Ok(
            ExpressionModel::Terminal { terminal_type: TerminalType::UnsignedInteger, token: t@ },
        ),
        SynPrimary::UnsignedReal(t) => Ok(
            ExpressionModel::Terminal { terminal_type: TerminalType::UnsignedReal, token: t@ },
        ),
        SynPrimary::Str(t) => Ok(
            ExpressionModel::Terminal {
                terminal_type: TerminalType::String,
                token: spec_strip_quotes(t@),
            },
        ),
        SynPrimary::True(t) => Ok(
            ExpressionModel::Terminal { terminal_type: TerminalType::Bool, token: t@ },
        ),
        SynPrimary::False(t) => Ok(
            ExpressionModel::Terminal { terminal_type: TerminalType::Bool, token: t@ },
        ),
        SynPrimary::End(t) => Ok(
            ExpressionModel::Terminal { terminal_type: TerminalType::End, token: t@ },
        ),
        SynPrimary::Array(t) => Err(
            ErrorModel::Unimplemented { construct: "array primary"@, location: t@.location },
        ),
        SynPrimary::RangePrimary(t) => Err(
            ErrorModel::Unimplemented { construct: "range primary"@, location: t@.location },
        ),
        SynPrimary::Output { exprs, trailer, paren } => match trailer {
            Some(t) => Err(
                ErrorModel::Unimplemented {
                    construct: "output primary trailer"@,
                    location: t@.location,
                },
            ),
            None => {
                if exprs.len() != 1 {
                    Err(
                        ErrorModel::Unimplemented {
                            construct: "output expression list"@,
                            location: paren@.location,
                        },
                    )
                } else {
                    spec_lower_expression(exprs[0])
                }
            },
        },
        SynPrimary::GlobalCall { keyword, args } => match spec_lower_call_args(args) {
            Err(err) => Err(err),
            Ok(am) => Ok(
                ExpressionModel::FunctionCall {
                    comp: ComponentReferenceModel {
                        local: false,
                        parts: seq![
                            ComponentRefPartModel {
                                ident: keyword@,
                                subs: None::<Seq<SubscriptModel>>,
                            },
                        ],
                    },
                    args: am,
                },
            ),
        },
    }
}

/// A factor: at most one exponent; a longer `^` chain is malformed.
#[verifier::opaque]
pub open spec fn spec_lower_factor(f: SynFactor) -> Result<ExpressionModel, ErrorModel>
    decreases f,
{
    if f.exponents.len() == 0 {
        spec_lower_primary(f.base)
    } else if f.exponents.len() == 1 {
        match spec_lower_primary(f.base) {
            Err(err) => Err(err),
            Ok(base) => match spec_lower_primary(f.exponents[0]) {
                Err(err) => Err(err),
                Ok(exp) => Ok(
                    ExpressionModel::Binary {
                        op: OpBinaryModel::Exp(synthetic_token_model(Seq::empty())),
                        lhs: Box::new(base),
                        rhs: Box::new(exp),
                    },
                ),
            },
        }
    } else {
        Err(
            ErrorModel::MalformedInput {
                reason: "non-associative exponent chain"@,
                location: primary_token(f.base).location,
            },
        )
    }
}

/// The left-associative multiplicative fold.
#[verifier::opaque]
pub open spec fn spec_fold_mul(acc: ExpressionModel, rest: Seq<SynMulFactor>) -> Result<
    ExpressionModel,
    ErrorModel,
>
    decreases rest,
{
    if rest.len() == 0 {
        Ok(acc)
    } else {
        match spec_lower_factor(rest[0].factor) {
            Err(err) => Err(err),
            Ok(f) => spec_fold_mul(
                ExpressionModel::Binary {
                    op: mul_op_model(rest[0].op),
                    lhs: Box::new(acc),
                    rhs: Box::new(f),
                },
                rest.subrange(1, rest.len() as int),
            ),
        }
    }
}

#[verifier::opaque]
pub open spec fn spec_lower_term(t: SynTerm) -> Result<ExpressionModel, ErrorModel>
    decreases t,
{
    match spec_lower_factor(t.first) {
        Err(err) => Err(err),
        Ok(first) => spec_fold_mul(first, t.rest@),
    }
}

/// The left-associative additive fold.
#[verifier::opaque]
pub open spec fn spec_fold_add(acc: ExpressionModel, rest: Seq<SynAddTerm>) -> Result<
    ExpressionModel,
    ErrorModel,
>
    decreases rest,
{
    if rest.len() == 0 {
        Ok(acc)
    } else {
        match spec_lower_term(rest[0].term) {
            Err(err) => Err(err),
            Ok(t) => spec_fold_add(
                ExpressionModel::Binary {
                    op: add_op_binary_model(rest[0].op),
                    lhs: Box::new(acc),
                    rhs: Box::new(t),
                },
                rest.subrange(1, rest.len() as int),
            ),
        }
    }
}

/// An arithmetic expression: the optional sign wraps only the first
/// term, then the additive fold.
#[verifier::opaque]
pub open spec fn spec_lower_arithmetic(a: SynArithmeticExpression) -> Result<
    ExpressionModel,
    ErrorModel,
>
    decreases a,
{
    match spec_lower_term(a.first) {
        Err(err) => Err(err),
        Ok(first) => {
            let signed = match a.sign {
                Some(op) => ExpressionModel::Unary {
                    op: add_op_unary_model(op),
                    rhs: Box::new(first),
                },
                None => first,
            };
            spec_fold_add(signed, a.rest@)
        },
    }
}

/// A relation: non-chained.
#[verifier::opaque]
pub open spec fn spec_lower_relation(r: SynRelation) -> Result<ExpressionModel, ErrorModel>
    decreases r,
{
    match spec_lower_arithmetic(r.lhs) {
        Err(err) => Err(err),
        Ok(lhs) => match r.tail {
            None => Ok(lhs),
            Some(tail) => match spec_lower_arithmetic(tail.rhs) {
                Err(err) => Err(err),
                Ok(rhs) => Ok(
                    ExpressionModel::Binary {
                        op: rel_op_model(tail.op),
                        lhs: Box::new(lhs),
                        rhs: Box::new(rhs),
                    },
                ),
            },
        },
    }
}

#[verifier::opaque]
pub open spec fn spec_lower_logical_factor(f: SynLogicalFactor) -> Result<
    ExpressionModel,
    ErrorModel,
>
    decreases f,
{
    match spec_lower_relation(f.relation) {
        Err(err) => Err(err),
        Ok(rel) => match f.not_token {
            Some(t) => Ok(
                ExpressionModel::Unary { op: OpUnaryModel::Not(t@), rhs: Box::new(rel) },
            ),
            None => Ok(rel),
        },
    }
}

/// The left-associative `and` fold.
#[verifier::opaque]
pub open spec fn spec_fold_and(acc: ExpressionModel, rest: Seq<SynLogicalFactor>) -> Result<
    ExpressionModel,
    ErrorModel,
>
    decreases rest,
{
    if rest.len() == 0 {
        Ok(acc)
    } else {
        match spec_lower_logical_factor(rest[0]) {
            Err(err) => Err(err),
            Ok(f) => spec_fold_and(
                ExpressionModel::Binary {
                    op: OpBinaryModel::And(synthetic_token_model(Seq::empty())),
                    lhs: Box::new(acc),
                    rhs: Box::new(f),
                },
                rest.subrange(1, rest.len() as int),
            ),
        }
    }
}

#[verifier::opaque]
pub open spec fn spec_lower_logical_term(t: SynLogicalTerm) -> Result<
    ExpressionModel,
    ErrorModel,
>
    decreases t,
{
    match spec_lower_logical_factor(t.first) {
        Err(err) => Err(err),
        Ok(first) => spec_fold_and(first, t.rest@),
    }
}

/// The left-associative `or` fold.
#[verifier::opaque]
pub open spec fn spec_fold_or(acc: ExpressionModel, rest: Seq<SynLogicalTerm>) -> Result<
    ExpressionModel,
    ErrorModel,
>
    decreases rest,
{
    if rest.len() == 0 {
        Ok(acc)
    } else {
        match spec_lower_logical_term(rest[0]) {
            Err(err) => Err(err),
            Ok(t) => spec_fold_or(
                ExpressionModel::Binary {
                    op: OpBinaryModel::Or(synthetic_token_model(Seq::empty())),
                    lhs: Box::new(acc),
                    rhs: Box::new(t),
                },
                rest.subrange(1, rest.len() as int),
            ),
        }
    }
}

#[verifier::opaque]
pub open spec fn spec_lower_logical_expression(e: SynLogicalExpression) -> Result<
    ExpressionModel,
    ErrorModel,
>
    decreases e,
{
    match spec_lower_logical_term(e.first) {
        Err(err) => Err(err),
        Ok(first) => spec_fold_or(first, e.rest@),
    }
}

/// A simple expression: a logical expression, `a:b`, or `a:s:b`.
#[verifier::opaque]
pub open spec fn spec_lower_simple_expression(e: SynSimpleExpression) -> Result<
    ExpressionModel,
    ErrorModel,
>
    decreases e,
{
    match spec_lower_logical_expression(e.first) {
        Err(err) => Err(err),
        Ok(first) => match e.range {
            None => Ok(first),
            Some(tail) => match spec_lower_logical_expression(tail.step_or_end) {
                Err(err) => Err(err),
                Ok(second) => match tail.end {
                    None => Ok(
                        ExpressionModel::Range {
                            start: Box::new(first),
                            step: None,
                            end: Box::new(second),
                        },
                    ),
                    Some(third) => match spec_lower_logical_expression(third) {
                        Err(err) => Err(err),
                        Ok(last) => Ok(
                            ExpressionModel::Range {
                                start: Box::new(first),
                                step: Some(Box::new(second)),
                                end: Box::new(last),
                            },
                        ),
                    },
                },
            },
        },
    }
}

#[verifier::opaque]
pub open spec fn spec_lower_expression(e: SynExpression) -> Result<ExpressionModel, ErrorModel>
    decreases e,
{
    match e {
        SynExpression::Simple(s) => spec_lower_simple_expression(*s),
        SynExpression::If(t) => Err(
            ErrorModel::Unimplemented { construct: "if expression"@, location: t@.location },
        ),
    }
}

// ---------------------------------------------------------------------------
// Equations and statements
// ---------------------------------------------------------------------------

/// The leftmost token of a simple expression: down the cascade to the
/// first primary.
pub open spec fn simple_expr_token(e: SynSimpleExpression) -> TokenModel {
    primary_token(e.first.first.first.relation.lhs.first.first.base)
}

#[verifier::opaque]
pub open spec fn spec_lower_equation(e: SynEquation) -> Result<EquationModel, ErrorModel>
    decreases e,
{
    match e {
        SynEquation::Simple { lhs, rhs } => match spec_lower_simple_expression(lhs) {
            Err(err) => Err(err),
            Ok(lm) => match rhs {
                Some(r) => match spec_lower_expression(r) {
                    Err(err) => Err(err),
                    Ok(rm) => Ok(EquationModel::Simple { lhs: lm, rhs: rm }),
                },
                None => match lm {
                    ExpressionModel::FunctionCall { comp, args } => Ok(
                        EquationModel::FunctionCall { comp, args },
                    ),
                    _ => Err(
                        ErrorModel::MalformedInput {
                            reason: "equation must be a function call"@,
                            location: simple_expr_token(lhs).location,
                        },
                    ),
                },
            },
        },
        SynEquation::Connect { lhs, rhs } => match spec_lower_cref(lhs) {
            Err(err) => Err(err),
            Ok(lm) => match spec_lower_cref(rhs) {
                Err(err) => Err(err),
                Ok(rm) => Ok(EquationModel::Connect { lhs: lm, rhs: rm }),
            },
        },
        SynEquation::If { blocks, else_eqs } => match spec_lower_eq_blocks(blocks@) {
            Err(err) => Err(err),
            Ok(bm) => match else_eqs {
                None => Ok(EquationModel::If { cond_blocks: bm, else_block: None }),
                Some(v) => match spec_lower_eqs(v@) {
                    Err(err) => Err(err),
                    Ok(em) => Ok(EquationModel::If { cond_blocks: bm, else_block: Some(em) }),
                },
            },
        },
        SynEquation::When { blocks } => match spec_lower_eq_blocks(blocks@) {
            Err(err) => Err(err),
            Ok(bm) => Ok(EquationModel::When(bm)),
        },
        SynEquation::For(t) => Err(
            ErrorModel::Unimplemented { construct: "for equation"@, location: t@.location },
        ),
    }
}

#[verifier::opaque]
pub open spec fn spec_lower_eqs(s: Seq<SynEquation>) -> Result<Seq<EquationModel>, ErrorModel>
    decreases s,
{
    if s.len() == 0 {
        Ok(Seq::empty())
    } else {
        match spec_lower_equation(s[0]) {
            Err(err) => Err(err),
            Ok(m) => match spec_lower_eqs(s.subrange(1, s.len() as int)) {
                Err(err) => Err(err),
                Ok(rest) => Ok(seq![m] + rest),
            },
        }
    }
}

#[verifier::opaque]
pub open spec fn spec_lower_eq_block(b: SynEquationBlock) -> Result<
    EquationBlockModel,
    ErrorModel,
>
    decreases b,
{
    match spec_lower_expression(b.cond) {
        Err(err) => Err(err),
        Ok(cm) => match spec_lower_eqs(b.eqs@) {
            Err(err) => Err(err),
            Ok(em) => Ok(EquationBlockModel { cond: cm, eqs: em }),
        },
    }
}

#[verifier::opaque]
pub open spec fn spec_lower_eq_blocks(s: Seq<SynEquationBlock>) -> Result<
    Seq<EquationBlockModel>,
    ErrorModel,
>
    decreases s,
{
    if s.len() == 0 {
        Ok(Seq::empty())
    } else {
        match spec_lower_eq_block(s[0]) {
            Err(err) => Err(err),
            Ok(m) => match spec_lower_eq_blocks(s.subrange(1, s.len() as int)) {
                Err(err) => Err(err),
                Ok(rest) => Ok(seq![m] + rest),
            },
        }
    }
}

#[verifier::opaque]
pub open spec fn spec_lower_statement(s: SynStatement) -> Result<StatementModel, ErrorModel> {
    match s {
        SynStatement::Assignment { comp, value } => match spec_lower_cref(comp) {
            Err(err) => Err(err),
            Ok(cm) => match spec_lower_expression(value) {
                Err(err) => Err(err),
                Ok(vm) => Ok(StatementModel::Assignment { comp: cm, value: vm }),
            },
        },
        SynStatement::Call { comp, args } => match spec_lower_cref(comp) {
            Err(err) => Err(err),
            Ok(cm) => match spec_lower_call_args(args) {
                Err(err) => Err(err),
                Ok(am) => Ok(StatementModel::FunctionCall { comp: cm, args: am }),
            },
        },
        SynStatement::Break(t) => Ok(StatementModel::Break { token: t@ }),
        SynStatement::Return(t) => Ok(StatementModel::Return { token: t@ }),
        SynStatement::For(t) => Err(
            ErrorModel::Unimplemented { construct: "for statement"@, location: t@.location },
        ),
        SynStatement::If(t) => Err(
            ErrorModel::Unimplemented { construct: "if statement"@, location: t@.location },
        ),
        SynStatement::When(t) => Err(
            ErrorModel::Unimplemented { construct: "when statement"@, location: t@.location },
        ),
        SynStatement::While(t) => Err(
            ErrorModel::Unimplemented { construct: "while statement"@, location: t@.location },
        ),
        SynStatement::CallOutput(t) => Err(
            ErrorModel::Unimplemented {
                construct: "function call statement"@,
                location: t@.location,
            },
        ),
    }
}

#[verifier::opaque]
pub open spec fn spec_lower_stmts(s: Seq<SynStatement>) -> Result<
    Seq<StatementModel>,
    ErrorModel,
>
    decreases s,
{
    if s.len() == 0 {
        Ok(Seq::empty())
    } else {
        match spec_lower_statement(s[0]) {
            Err(err) => Err(err),
            Ok(m) => match spec_lower_stmts(s.subrange(1, s.len() as int)) {
                Err(err) => Err(err),
                Ok(rest) => Ok(seq![m] + rest),
            },
        }
    }
}

#[verifier::opaque]
pub open spec fn spec_lower_statement_block(b: SynStatementBlock) -> Result<
    StatementBlockModel,
    ErrorModel,
> {
    match spec_lower_expression(b.cond) {
        Err(err) => Err(err),
        Ok(cm) => match spec_lower_stmts(b.stmts@) {
            Err(err) => Err(err),
            Ok(sm) => Ok(StatementBlockModel { cond: cm, stmts: sm }),
        },
    }
}

// ---------------------------------------------------------------------------
// Components and classes
// ---------------------------------------------------------------------------

/// The default start value for a declared type: `0.0` for `Real`, `0`
/// for `Integer`, `false` for `Bool`, empty otherwise.
pub open spec fn spec_default_start(tname: Seq<char>) -> ExpressionModel {
    if tname == "Real"@ {
        ExpressionModel::Terminal {
            terminal_type: TerminalType::UnsignedReal,
            token: synthetic_token_model("0.0"@),
        }
    } else if tname == "Integer"@ {
        ExpressionModel::Terminal {
            terminal_type: TerminalType::UnsignedInteger,
            token: synthetic_token_model("0"@),
        }
    } else if tname == "Bool"@ {
        ExpressionModel::Terminal {
            terminal_type: TerminalType::Bool,
            token: synthetic_token_model("false"@),
        }
    } else {
        ExpressionModel::Empty
    }
}

/// One declared component: the clause's prefixes and type, the declared
/// identifier, the description with quotes stripped, and the start
/// value (`= expr` when given, else the type's default).
#[verifier::opaque]
pub open spec fn spec_lower_component_declaration(
    decl: SynComponentDeclaration,
    clause: SynComponentClause,
) -> Result<ComponentModel, ErrorModel> {
    let start = match decl.modification {
        None => Ok(spec_default_start(spec_name_text(clause.type_specifier))),
        Some(m) => match m {
            SynModification::Class(_) => Ok(
                spec_default_start(spec_name_text(clause.type_specifier)),
            ),
            SynModification::Expression(e) => spec_lower_expression(e),
            SynModification::Break(t) => Err(
                ErrorModel::Unimplemented {
                    construct: "break modification"@,
                    location: t@.location,
                },
            ),
        },
    };
    match start {
        Err(err) => Err(err),
        Ok(sm) => Ok(
            ComponentModel {
                name: decl.ident@.text,
                type_specifier: spec_lower_name(clause.type_specifier),
                variability: variability_model(clause.variability),
                causality: causality_model(clause.causality),
                connection: connection_model(clause.connection),
                description: spec_lower_description(decl.description@),
                start: sm,
            },
        ),
    }
}

#[verifier::opaque]
pub open spec fn spec_lower_component_clause_decls(
    decls: Seq<SynComponentDeclaration>,
    clause: SynComponentClause,
) -> Result<Seq<ComponentModel>, ErrorModel>
    decreases decls.len(),
{
    if decls.len() == 0 {
        Ok(Seq::empty())
    } else {
        match spec_lower_component_declaration(decls[0], clause) {
            Err(err) => Err(err),
            Ok(m) => match spec_lower_component_clause_decls(
                decls.subrange(1, decls.len() as int),
                clause,
            ) {
                Err(err) => Err(err),
                Ok(rest) => Ok(seq![m] + rest),
            },
        }
    }
}

/// First index whose key is `k` among class entries, or `-1`.
pub open spec fn klass_index_of(s: Seq<(Seq<char>, ClassModel)>, k: Seq<char>) -> int
    decreases s,
{
    if s.len() == 0 {
        -1
    } else if s[0].0 == k {
        0
    } else {
        let r = klass_index_of(s.subrange(1, s.len() as int), k);
        if r < 0 {
            -1
        } else {
            r + 1
        }
    }
}

/// Ordered-map insertion among class entries.
pub open spec fn klass_insert(
    s: Seq<(Seq<char>, ClassModel)>,
    k: Seq<char>,
    v: ClassModel,
) -> Seq<(Seq<char>, ClassModel)> {
    let i = klass_index_of(s, k);
    if i == -1 {
        s.push((k, v))
    } else {
        s.update(i, (k, v))
    }
}

/// The lowered outputs of an element list: the four ordered streams.
pub struct ElementListModel {
    pub classes: Seq<(Seq<char>, ClassModel)>,
    pub components: Seq<(Seq<char>, ComponentModel)>,
    pub imports: Seq<Seq<char>>,
    pub extends: Seq<ExtendModel>,
}

pub open spec fn empty_element_list_model() -> ElementListModel {
    ElementListModel {
        classes: Seq::empty(),
        components: Seq::empty(),
        imports: Seq::empty(),
        extends: Seq::empty(),
    }
}

/// Splits the elements, in order, into nested classes, components,
/// extends and imports.
#[verifier::opaque]
pub open spec fn spec_lower_elements(s: Seq<SynElement>, acc: ElementListModel) -> Result<
    ElementListModel,
    ErrorModel,
>
    decreases s, 0int, 0int,
{
    if s.len() == 0 {
        Ok(acc)
    } else {
        let step: Result<ElementListModel, ErrorModel> = match s[0] {
            SynElement::ClassDefinition(cd) => match spec_lower_class_definition(*cd) {
                Err(err) => Err(err),
                Ok(km) => Ok(
                    ElementListModel {
                        classes: klass_insert(acc.classes, km.name.text, km),
                        ..acc
                    },
                ),
            },
            SynElement::ComponentClause(c) => match spec_lower_component_clause_decls(
                c.components@,
                c,
            ) {
                Err(err) => Err(err),
                Ok(comps) => Ok(
                    ElementListModel {
                        components: insert_components(acc.components, comps),
                        ..acc
                    },
                ),
            },
            SynElement::Import { name } => Ok(
                ElementListModel { imports: acc.imports.push(spec_name_text(name)), ..acc },
            ),
            SynElement::ImportRenaming(t) => Err(
                ErrorModel::Unimplemented { construct: "renaming import"@, location: t@.location },
            ),
            SynElement::Extends { name, modification, annotation } => match modification {
                Some(t) => Err(
                    ErrorModel::Unimplemented {
                        construct: "inheritance modification"@,
                        location: t@.location,
                    },
                ),
                None => match annotation {
                    Some(t) => Err(
                        ErrorModel::Unimplemented {
                            construct: "extends annotation"@,
                            location: t@.location,
                        },
                    ),
                    None => Ok(
                        ElementListModel {
                            extends: acc.extends.push(
                                ExtendModel { comp: spec_lower_name(name) },
                            ),
                            ..acc
                        },
                    ),
                },
            },
            SynElement::Replaceable(t) => Err(
                ErrorModel::Unimplemented {
                    construct: "replaceable element"@,
                    location: t@.location,
                },
            ),
        };
        match step {
            Err(err) => Err(err),
            Ok(acc1) => spec_lower_elements(s.subrange(1, s.len() as int), acc1),
        }
    }
}

/// Inserts the clause's components in order, keyed by name.
#[verifier::opaque]
pub open spec fn insert_components(
    acc: Seq<(Seq<char>, ComponentModel)>,
    comps: Seq<ComponentModel>,
) -> Seq<(Seq<char>, ComponentModel)>
    decreases comps.len(),
{
    if comps.len() == 0 {
        acc
    } else {
        insert_components(
            crate::flatten::centry_insert(acc, comps[0].name, comps[0]),
            comps.subrange(1, comps.len() as int),
        )
    }
}

/// The lowered outputs of a composition.
pub struct CompositionModel {
    pub classes: Seq<(Seq<char>, ClassModel)>,
    pub components: Seq<(Seq<char>, ComponentModel)>,
    pub imports: Seq<Seq<char>>,
    pub extends: Seq<ExtendModel>,
    pub equations: Seq<EquationModel>,
    pub initial_equations: Seq<EquationModel>,
    pub algorithms: Seq<Seq<StatementModel>>,
    pub initial_algorithms: Seq<Seq<StatementModel>>,
}

/// Folds the composition's sections after the leading element list.
#[verifier::opaque]
pub open spec fn spec_lower_sections(
    s: Seq<SynCompositionSection>,
    acc: CompositionModel,
) -> Result<CompositionModel, ErrorModel>
    decreases s,
{
    if s.len() == 0 {
        Ok(acc)
    } else {
        let step: Result<CompositionModel, ErrorModel> = match s[0] {
            SynCompositionSection::Public(t) => Err(
                ErrorModel::Unimplemented {
                    construct: "public element list"@,
                    location: t@.location,
                },
            ),
            SynCompositionSection::Protected(t) => Err(
                ErrorModel::Unimplemented {
                    construct: "protected element list"@,
                    location: t@.location,
                },
            ),
            SynCompositionSection::EquationSection(es) => match spec_lower_eqs(es.equations@) {
                Err(err) => Err(err),
                Ok(em) => {
                    if es.initial {
                        Ok(
                            CompositionModel {
                                initial_equations: acc.initial_equations + em,
                                ..acc
                            },
                        )
                    } else {
                        Ok(CompositionModel { equations: acc.equations + em, ..acc })
                    }
                },
            },
            SynCompositionSection::AlgorithmSection(als) => match spec_lower_stmts(
                als.statements@,
            ) {
                Err(err) => Err(err),
                Ok(sm) => {
                    if als.initial {
                        Ok(
                            CompositionModel {
                                initial_algorithms: acc.initial_algorithms.push(sm),
                                ..acc
                            },
                        )
                    } else {
                        Ok(CompositionModel { algorithms: acc.algorithms.push(sm), ..acc })
                    }
                },
            },
        };
        match step {
            Err(err) => Err(err),
            Ok(acc1) => spec_lower_sections(s.subrange(1, s.len() as int), acc1),
        }
    }
}

#[verifier::opaque]
pub open spec fn spec_lower_composition(c: SynComposition) -> Result<
    CompositionModel,
    ErrorModel,
>
    decreases c, 1int, 0int,
{
    match spec_lower_elements(c.element_list.elements@, empty_element_list_model()) {
        Err(err) => Err(err),
        Ok(el) => spec_lower_sections(
            c.sections@,
            CompositionModel {
                classes: el.classes,
                components: el.components,
                imports: el.imports,
                extends: el.extends,
                equations: Seq::empty(),
                initial_equations: Seq::empty(),
                algorithms: Seq::empty(),
                initial_algorithms: Seq::empty(),
            },
        ),
    }
}

/// A lowered class: only the long standard specifier is supported.
#[verifier::opaque]
pub open spec fn spec_lower_class_definition(cd: SynClassDefinition) -> Result<
    ClassModel,
    ErrorModel,
>
    decreases cd, 2int, 0int,
{
    match cd.specifier {
        SynClassSpecifier::Standard { name, composition } => match spec_lower_composition(
            composition,
        ) {
            Err(err) => Err(err),
            Ok(cm) => Ok(
                ClassModel {
                    name: name@,
                    encapsulated: cd.encapsulated,
                    classes: cm.classes,
                    components: cm.components,
                    extends: cm.extends,
                    imports: cm.imports,
                    equations: cm.equations,
                    initial_equations: cm.initial_equations,
                    algorithms: cm.algorithms,
                    initial_algorithms: cm.initial_algorithms,
                },
            ),
        },
        SynClassSpecifier::ExtendsSpecifier(t) => Err(
            ErrorModel::Unimplemented {
                construct: "extends class specifier"@,
                location: t@.location,
            },
        ),
        SynClassSpecifier::Der(t) => Err(
            ErrorModel::Unimplemented { construct: "der class specifier"@, location: t@.location },
        ),
        SynClassSpecifier::EnumSpecifier(t) => Err(
            ErrorModel::Unimplemented {
                construct: "enumeration class specifier"@,
                location: t@.location,
            },
        ),
        SynClassSpecifier::TypeSpecifier(t) => Err(
            ErrorModel::Unimplemented {
                construct: "type class specifier"@,
                location: t@.location,
            },
        ),
    }
}

/// Accumulates the top-level classes, keyed by name in source order.
#[verifier::opaque]
pub open spec fn spec_lower_class_list(
    s: Seq<SynClassDefinition>,
    acc: Seq<(Seq<char>, ClassModel)>,
) -> Result<Seq<(Seq<char>, ClassModel)>, ErrorModel>
    decreases s, 3int, 0int,
{
    if s.len() == 0 {
        Ok(acc)
    } else {
        match spec_lower_class_definition(s[0]) {
            Err(err) => Err(err),
            Ok(km) => spec_lower_class_list(
                s.subrange(1, s.len() as int),
                klass_insert(acc, km.name.text, km),
            ),
        }
    }
}

/// The lowered stored definition.
#[verifier::opaque]
pub open spec fn spec_lower_stored_definition(sd: SynStoredDefinition) -> Result<
    StoredDefinitionModel,
    ErrorModel,
> {
    match spec_lower_class_list(sd.classes@, Seq::empty()) {
        Err(err) => Err(err),
        Ok(classes) => Ok(
            StoredDefinitionModel {
                within: match sd.within {
                    Some(n) => Some(spec_lower_name(n)),
                    None => None,
                },
                classes,
            },
        ),
    }
}

// ---------------------------------------------------------------------------
// Executable lowering: names, descriptions, references
// ---------------------------------------------------------------------------

/// A lowered token list (a description string's tokens).
#[derive(Debug, PartialEq, Eq)]
pub struct TokenList {
    pub tokens: Vec<Token>,
}

/// The declarations of one component clause.
#[derive(Debug, PartialEq, Eq)]
pub struct ComponentList {
    pub components: Vec<crate::syntax::SynComponentDeclaration>,
}

/// A lowered equation section.
#[derive(Debug, PartialEq, Eq)]
pub struct EquationSection {
    pub initial: bool,
    pub equations: Vec<Equation>,
}

/// A lowered algorithm section.
#[derive(Debug, PartialEq, Eq)]
pub struct AlgorithmSection {
    pub initial: bool,
    pub statements: Vec<Statement>,
}

/// A lowered subscript list.
#[derive(Debug, PartialEq, Eq)]
pub struct ArraySubscripts {
    pub subscripts: Vec<Subscript>,
}

/// A lowered expression list (a call's arguments).
#[derive(Debug, PartialEq, Eq)]
pub struct ExpressionList {
    pub args: Vec<Expression>,
}

/// Lowers a dotted name.
pub fn lower_name(n: &SynName) -> (r: Name)
    ensures
        r@ == spec_lower_name(*n),
{
    let mut toks: Vec<Token> = Vec::new();
    toks.push(n.first.duplicate());
    let k = n.rest.len();
    let mut i: usize = 0;
    while i < k
        invariant
            k == n.rest@.len(),
            0 <= i <= k,
            toks@.len() == i + 1,
            toks@[0] == n.first,
            forall|j: int| 0 <= j < i ==> toks@[j + 1] == n.rest@[j],
        decreases k - i,
    {
        toks.push(n.rest[i].duplicate());
        i += 1;
    }
    let r = Name { name: toks };
    proof {
        assert(r@ =~= spec_lower_name(*n));
    }
    r
}

/// Strips the outer quotes from a string token's text.
fn strip_quotes(t: &Token) -> (r: Token)
    ensures
        r@ == spec_strip_quotes(t@),
{
    let n = t.text.as_str().unicode_len();
    if n >= 2 {
        let text = t.text.as_str().substring_char(1, n - 1).to_owned();
        Token {
            text,
            location: t.location.duplicate(),
            token_number: t.token_number,
            token_type: t.token_type,
        }
    } else {
        t.duplicate()
    }
}

/// Lowers a description string's token list, stripping quotes.
pub fn lower_description(toks: &Vec<Token>) -> (r: TokenList)
    ensures
        tokens_model(r.tokens@) == spec_lower_description(toks@),
{
    let mut tokens: Vec<Token> = Vec::new();
    let n = toks.len();
    let mut i: usize = 0;
    while i < n
        invariant
            n == toks@.len(),
            0 <= i <= n,
            tokens@.len() == i,
            forall|j: int| 0 <= j < i ==> tokens@[j]@ == spec_strip_quotes(toks@[j]@),
        decreases n - i,
    {
        tokens.push(strip_quotes(&toks[i]));
        i += 1;
    }
    proof {
        assert(tokens_model(tokens@) =~= spec_lower_description(toks@));
    }
    TokenList { tokens }
}

/// The adapter that receives the parsed tree and keeps the lowered
/// stored definition.  The external parser drives it once per parse.
#[derive(Debug)]
pub struct ModelicaGrammar {
    pub modelica: Option<StoredDefinition>,
}

impl ModelicaGrammar {
    /// A fresh adapter with no parse result yet.
    pub fn new() -> (r: ModelicaGrammar)
        ensures
            r.modelica is None,
    {
        ModelicaGrammar { modelica: None }
    }
}

// ---------------------------------------------------------------------------
// Executable lowering: subscripts and references
// ---------------------------------------------------------------------------

/// Lowers one subscript.
#[verifier::spinoff_prover]
pub fn lower_subscript(s: &SynSubscript) -> (r: Result<Subscript, Error>)
    ensures
        match r {
            Ok(m) => spec_lower_subscript(*s) == Ok::<SubscriptModel, ErrorModel>(
                subscript_model(m),
            ),
            Err(e) => spec_lower_subscript(*s) == Err::<SubscriptModel, ErrorModel>(
                error_model(e),
            ),
        },
    decreases *s,
{
    proof {
        reveal_with_fuel(spec_lower_subscript, 1);
    }
    match s {
        SynSubscript::Colon(t) => Ok(Subscript::Range { token: t.duplicate() }),
        SynSubscript::Expression(e) => match lower_expression(e) {
            Ok(m) => Ok(Subscript::Expression(m)),
            Err(err) => Err(err),
        },
    }
}

/// A prefix of successful subscripts splits the list lowering.
#[verifier::spinoff_prover]
proof fn lemma_lower_subscripts_prefix(s: Seq<SynSubscript>, i: int)
    requires
        0 <= i <= s.len(),
        forall|j: int| 0 <= j < i ==> spec_lower_subscript(s[j]) is Ok,
    ensures
        spec_lower_subscripts(s) == match spec_lower_subscripts(s.subrange(i, s.len() as int)) {
            Err(e) => Err::<Seq<SubscriptModel>, ErrorModel>(e),
            Ok(r) => Ok::<Seq<SubscriptModel>, ErrorModel>(
                Seq::new(i as nat, |j: int| spec_lower_subscript(s[j])->Ok_0) + r,
            ),
        },
    decreases i,
{
    reveal_with_fuel(spec_lower_subscripts, 1);
    if i == 0 {
        assert(s.subrange(0, s.len() as int) =~= s);
        match spec_lower_subscripts(s) {
            Err(_) => {},
            Ok(r) => {
                assert(Seq::new(0, |j: int| spec_lower_subscript(s[j])->Ok_0) + r =~= r);
            },
        }
    } else {
        lemma_lower_subscripts_prefix(s, i - 1);
        let tail = s.subrange(i - 1, s.len() as int);
        assert(tail[0] == s[i - 1]);
        assert(tail.subrange(1, tail.len() as int) =~= s.subrange(i, s.len() as int));
        match spec_lower_subscripts(s.subrange(i, s.len() as int)) {
            Err(_) => {},
            Ok(r) => {
                assert(Seq::new((i - 1) as nat, |j: int| spec_lower_subscript(s[j])->Ok_0) + (
                seq![spec_lower_subscript(s[i - 1])->Ok_0] + r) =~= Seq::new(
                    i as nat,
                    |j: int| spec_lower_subscript(s[j])->Ok_0,
                ) + r);
            },
        }
    }
}

/// Lowers a subscript list.
#[verifier::spinoff_prover]
pub fn lower_array_subscripts(v: &Vec<SynSubscript>) -> (r: Result<ArraySubscripts, Error>)
    ensures
        match r {
            Ok(m) => spec_lower_subscripts(v@) == Ok::<Seq<SubscriptModel>, ErrorModel>(
                subscripts_model(m.subscripts@),
            ),
            Err(e) => spec_lower_subscripts(v@) == Err::<Seq<SubscriptModel>, ErrorModel>(
                error_model(e),
            ),
        },
    decreases v@,
{
    proof {
        reveal_with_fuel(spec_lower_subscripts, 1);
    }
    let mut out: Vec<Subscript> = Vec::new();
    let n = v.len();
    let mut i: usize = 0;
    while i < n
        invariant
            n == v@.len(),
            0 <= i <= n,
            out@.len() == i,
            forall|j: int| 0 <= j < i ==> spec_lower_subscript(v@[j]) is Ok,
            forall|j: int|
                0 <= j < i ==> Ok::<SubscriptModel, ErrorModel>(subscript_model(out@[j]))
                    == spec_lower_subscript(v@[j]),
        decreases n - i,
    {
        match lower_subscript(&v[i]) {
            Ok(m) => {
                out.push(m);
            },
            Err(err) => {
                proof {
                    reveal_with_fuel(spec_lower_subscripts, 1);
                    lemma_lower_subscripts_prefix(v@, i as int);
                    assert(v@.subrange(i as int, v@.len() as int)[0] == v@[i as int]);
                }
                return Err(err);
            },
        }
        i += 1;
    }
    proof {
        lemma_lower_subscripts_prefix(v@, n as int);
        lemma_subscripts_model(out@);
        assert(v@.subrange(n as int, n as int) =~= Seq::<SynSubscript>::empty());
        assert(subscripts_model(out@) =~= Seq::new(
            n as nat,
            |j: int| spec_lower_subscript(v@[j])->Ok_0,
        ));
    }
    Ok(ArraySubscripts { subscripts: out })
}

/// A prefix of successful parts splits the part-list lowering.
#[verifier::spinoff_prover]
proof fn lemma_lower_cref_parts_prefix(s: Seq<SynComponentRefPart>, i: int)
    requires
        0 <= i <= s.len(),
        forall|j: int| 0 <= j < i ==> spec_lower_cref_part(s[j]) is Ok,
    ensures
        spec_lower_cref_parts(s) == match spec_lower_cref_parts(s.subrange(i, s.len() as int)) {
            Err(e) => Err::<Seq<ComponentRefPartModel>, ErrorModel>(e),
            Ok(r) => Ok::<Seq<ComponentRefPartModel>, ErrorModel>(
                Seq::new(i as nat, |j: int| spec_lower_cref_part(s[j])->Ok_0) + r,
            ),
        },
    decreases i,
{
    reveal_with_fuel(spec_lower_cref_parts, 1);
    if i == 0 {
        assert(s.subrange(0, s.len() as int) =~= s);
        match spec_lower_cref_parts(s) {
            Err(_) => {},
            Ok(r) => {
                assert(Seq::new(0, |j: int| spec_lower_cref_part(s[j])->Ok_0) + r =~= r);
            },
        }
    } else {
        lemma_lower_cref_parts_prefix(s, i - 1);
        let tail = s.subrange(i - 1, s.len() as int);
        assert(tail[0] == s[i - 1]);
        assert(tail.subrange(1, tail.len() as int) =~= s.subrange(i, s.len() as int));
        match spec_lower_cref_parts(s.subrange(i, s.len() as int)) {
            Err(_) => {},
            Ok(r) => {
                assert(Seq::new((i - 1) as nat, |j: int| spec_lower_cref_part(s[j])->Ok_0) + (
                seq![spec_lower_cref_part(s[i - 1])->Ok_0] + r) =~= Seq::new(
                    i as nat,
                    |j: int| spec_lower_cref_part(s[j])->Ok_0,
                ) + r);
            },
        }
    }
}

/// Lowers a qualified reference.
#[verifier::spinoff_prover]
pub fn lower_component_reference(c: &SynComponentReference) -> (r: Result<
    ComponentReference,
    Error,
>)
    ensures
        match r {
            Ok(m) => spec_lower_cref(*c) == Ok::<ComponentReferenceModel, ErrorModel>(
                crate::ast::cref_model(m),
            ),
            Err(e) => spec_lower_cref(*c) == Err::<ComponentReferenceModel, ErrorModel>(
                error_model(e),
            ),
        },
    decreases *c,
{
    proof {
        reveal_with_fuel(spec_lower_cref, 1);
        reveal_with_fuel(spec_lower_cref_parts, 1);
    }
    let mut parts: Vec<ComponentRefPart> = Vec::new();
    parts.push(ComponentRefPart { ident: c.first.duplicate(), subs: None });
    let n = c.rest.len();
    let mut i: usize = 0;
    while i < n
        invariant
            n == c.rest@.len(),
            0 <= i <= n,
            parts@.len() == i + 1,
            crate::ast::cref_part_model(parts@[0]) == (ComponentRefPartModel {
                ident: c.first@,
                subs: None::<Seq<SubscriptModel>>,
            }),
            forall|j: int| 0 <= j < i ==> spec_lower_cref_part(c.rest@[j]) is Ok,
            forall|j: int|
                0 <= j < i ==> Ok::<ComponentRefPartModel, ErrorModel>(
                    crate::ast::cref_part_model(parts@[j + 1]),
                ) == spec_lower_cref_part(c.rest@[j]),
            decreases_to!(*c => c.rest@),
        decreases n - i,
    {
        let p = &c.rest[i];
        proof {
            reveal_with_fuel(spec_lower_cref_part, 1);
            reveal_with_fuel(spec_lower_cref_parts, 1);
            reveal_with_fuel(spec_lower_cref, 1);
            assert(decreases_to!(c.rest@ => c.rest@[i as int]));
        }
        let subs = match &p.subs {
            Some(v) => {
                proof {
                    assert(decreases_to!(*p => p.subs));
                    assert(decreases_to!(p.subs => *v));
                    assert(decreases_to!(*v => v@));
                }
                match lower_array_subscripts(v) {
                    Ok(m) => Some(m.subscripts),
                    Err(err) => {
                        proof {
                            lemma_lower_cref_parts_prefix(c.rest@, i as int);
                            assert(c.rest@.subrange(i as int, c.rest@.len() as int)[0]
                                == c.rest@[i as int]);
                        }
                        return Err(err);
                    },
                }
            },
            None => None,
        };
        parts.push(ComponentRefPart { ident: p.ident.duplicate(), subs });
        i += 1;
    }
    proof {
        lemma_lower_cref_parts_prefix(c.rest@, n as int);
        crate::ast::lemma_cref_parts_model(parts@);
        assert(c.rest@.subrange(n as int, n as int) =~= Seq::<SynComponentRefPart>::empty());
        assert(crate::ast::cref_parts_model(parts@) =~= seq![
            ComponentRefPartModel { ident: c.first@, subs: None::<Seq<SubscriptModel>> },
        ] + Seq::new(n as nat, |j: int| spec_lower_cref_part(c.rest@[j])->Ok_0));
    }
    Ok(ComponentReference { local: c.local, parts })
}

// ---------------------------------------------------------------------------
// Executable lowering: the expression cascade
// ---------------------------------------------------------------------------

/// Lowers one function argument.
#[verifier::spinoff_prover]
pub fn lower_function_argument(a: &SynFunctionArgument) -> (r: Result<Expression, Error>)
    ensures
        match r {
            Ok(m) => spec_lower_function_argument(*a) == Ok::<ExpressionModel, ErrorModel>(
                expr_model(m),
            ),
            Err(e) => spec_lower_function_argument(*a) == Err::<ExpressionModel, ErrorModel>(
                error_model(e),
            ),
        },
    decreases *a,
{
    proof {
        reveal_with_fuel(spec_lower_function_argument, 1);
    }
    match a {
        SynFunctionArgument::Expression(e) => lower_expression(e),
        SynFunctionArgument::PartialApplication(t) => Err(
            Error::Unimplemented {
                construct: "partial application".to_owned(),
                location: t.location.duplicate(),
            },
        ),
        SynFunctionArgument::Named(t) => Err(
            Error::Unimplemented {
                construct: "named arguments".to_owned(),
                location: t.location.duplicate(),
            },
        ),
        SynFunctionArgument::Comprehension(t) => Err(
            Error::Unimplemented {
                construct: "for indices".to_owned(),
                location: t.location.duplicate(),
            },
        ),
    }
}

/// A prefix of successful arguments splits the argument-list lowering.
#[verifier::spinoff_prover]
proof fn lemma_lower_args_prefix(s: Seq<SynFunctionArgument>, i: int)
    requires
        0 <= i <= s.len(),
        forall|j: int| 0 <= j < i ==> spec_lower_function_argument(s[j]) is Ok,
    ensures
        spec_lower_function_arguments(s) == match spec_lower_function_arguments(
            s.subrange(i, s.len() as int),
        ) {
            Err(e) => Err::<Seq<ExpressionModel>, ErrorModel>(e),
            Ok(r) => Ok::<Seq<ExpressionModel>, ErrorModel>(
                Seq::new(i as nat, |j: int| spec_lower_function_argument(s[j])->Ok_0) + r,
            ),
        },
    decreases i,
{
    reveal_with_fuel(spec_lower_function_arguments, 1);
    if i == 0 {
        assert(s.subrange(0, s.len() as int) =~= s);
        match spec_lower_function_arguments(s) {
            Err(_) => {},
            Ok(r) => {
                assert(Seq::new(0, |j: int| spec_lower_function_argument(s[j])->Ok_0) + r =~= r);
            },
        }
    } else {
        lemma_lower_args_prefix(s, i - 1);
        let tail = s.subrange(i - 1, s.len() as int);
        assert(tail[0] == s[i - 1]);
        assert(tail.subrange(1, tail.len() as int) =~= s.subrange(i, s.len() as int));
        match spec_lower_function_arguments(s.subrange(i, s.len() as int)) {
            Err(_) => {},
            Ok(r) => {
                assert(Seq::new(
                    (i - 1) as nat,
                    |j: int| spec_lower_function_argument(s[j])->Ok_0,
                ) + (seq![spec_lower_function_argument(s[i - 1])->Ok_0] + r) =~= Seq::new(
                    i as nat,
                    |j: int| spec_lower_function_argument(s[j])->Ok_0,
                ) + r);
            },
        }
    }
}

/// Lowers a call's argument list.
#[verifier::spinoff_prover]
pub fn lower_call_args(a: &SynFunctionCallArgs) -> (r: Result<ExpressionList, Error>)
    ensures
        match r {
            Ok(m) => spec_lower_call_args(*a) == Ok::<Seq<ExpressionModel>, ErrorModel>(
                exprs_model(m.args@),
            ),
            Err(e) => spec_lower_call_args(*a) == Err::<Seq<ExpressionModel>, ErrorModel>(
                error_model(e),
            ),
        },
    decreases *a,
{
    proof {
        reveal_with_fuel(spec_lower_call_args, 1);
        reveal_with_fuel(spec_lower_function_arguments, 1);
        assert(decreases_to!(*a => a.args));
        assert(decreases_to!(a.args => a.args@));
    }
    let mut out: Vec<Expression> = Vec::new();
    let n = a.args.len();
    let mut i: usize = 0;
    while i < n
        invariant
            n == a.args@.len(),
            0 <= i <= n,
            out@.len() == i,
            forall|j: int| 0 <= j < i ==> spec_lower_function_argument(a.args@[j]) is Ok,
            forall|j: int|
                0 <= j < i ==> Ok::<ExpressionModel, ErrorModel>(expr_model(out@[j]))
                    == spec_lower_function_argument(a.args@[j]),
            decreases_to!(*a => a.args@),
        decreases n - i,
    {
        proof {
            assert(decreases_to!(a.args@ => a.args@[i as int]));
        }
        match lower_function_argument(&a.args[i]) {
            Ok(m) => {
                out.push(m);
            },
            Err(err) => {
                proof {
                    reveal_with_fuel(spec_lower_call_args, 1);
                    reveal_with_fuel(spec_lower_function_arguments, 1);
                    lemma_lower_args_prefix(a.args@, i as int);
                    assert(a.args@.subrange(i as int, a.args@.len() as int)[0]
                        == a.args@[i as int]);
                }
                return Err(err);
            },
        }
        i += 1;
    }
    proof {
        lemma_lower_args_prefix(a.args@, n as int);
        crate::ast::lemma_exprs_model(out@);
        assert(a.args@.subrange(n as int, n as int) =~= Seq::<SynFunctionArgument>::empty());
        assert(exprs_model(out@) =~= Seq::new(
            n as nat,
            |j: int| spec_lower_function_argument(a.args@[j])->Ok_0,
        ));
    }
    Ok(ExpressionList { args: out })
}

/// Lowers a primary.
#[verifier::spinoff_prover]
pub fn lower_primary(p: &SynPrimary) -> (r: Result<Expression, Error>)
    ensures
        match r {
            Ok(m) => spec_lower_primary(*p) == Ok::<ExpressionModel, ErrorModel>(expr_model(m)),
            Err(e) => spec_lower_primary(*p) == Err::<ExpressionModel, ErrorModel>(
                error_model(e),
            ),
        },
    decreases *p,
{
    proof {
        reveal_with_fuel(spec_lower_primary, 1);
    }
    match p {
        SynPrimary::Component { comp, args } => {
            let cm = match lower_component_reference(comp) {
                Ok(m) => m,
                Err(err) => {
                    return Err(err);
                },
            };
            match args {
                None => Ok(Expression::ComponentReference(cm)),
                Some(a) => {
                    proof {
                        assert(decreases_to!(*p => *args));
                        assert(decreases_to!(*args => *a));
                    }
                    match lower_call_args(a) {
                        Ok(am) => {
                            let out = Expression::FunctionCall { comp: cm, args: am.args };
                            proof {
                                assert(spec_lower_primary(*p) == Ok::<
                                    ExpressionModel,
                                    ErrorModel,
                                >(expr_model(out)));
                            }
                            Ok(out)
                        },
                        Err(err) => Err(err),
                    }
                },
            }
        },
        SynPrimary::UnsignedInteger(t) => Ok(
            Expression::Terminal {
                terminal_type: TerminalType::UnsignedInteger,
                token: t.duplicate(),
            },
        ),
        SynPrimary::UnsignedReal(t) => Ok(
            Expression::Terminal {
                terminal_type: TerminalType::UnsignedReal,
                token: t.duplicate(),
            },
        ),
        SynPrimary::Str(t) => Ok(
            Expression::Terminal { terminal_type: TerminalType::String, token: strip_quotes(t) },
        ),
        SynPrimary::True(t) => Ok(
            Expression::Terminal { terminal_type: TerminalType::Bool, token: t.duplicate() },
        ),
        SynPrimary::False(t) => Ok(
            Expression::Terminal { terminal_type: TerminalType::Bool, token: t.duplicate() },
        ),
        SynPrimary::End(t) => Ok(
            Expression::Terminal { terminal_type: TerminalType::End, token: t.duplicate() },
        ),
        SynPrimary::Array(t) => Err(
            Error::Unimplemented {
                construct: "array primary".to_owned(),
                location: t.location.duplicate(),
            },
        ),
        SynPrimary::RangePrimary(t) => Err(
            Error::Unimplemented {
                construct: "range primary".to_owned(),
                location: t.location.duplicate(),
            },
        ),
        SynPrimary::Output { exprs, trailer, paren } => match trailer {
            Some(t) => Err(
                Error::Unimplemented {
                    construct: "output primary trailer".to_owned(),
                    location: t.location.duplicate(),
                },
            ),
            None => {
                if exprs.len() != 1 {
                    Err(
                        Error::Unimplemented {
                            construct: "output expression list".to_owned(),
                            location: paren.location.duplicate(),
                        },
                    )
                } else {
                    proof {
                        assert(decreases_to!(*p => *exprs));
                        assert(decreases_to!(*exprs => exprs@));
                        assert(decreases_to!(exprs@ => exprs@[0]));
                    }
                    lower_expression(&exprs[0])
                }
            },
        },
        SynPrimary::GlobalCall { keyword, args } => match lower_call_args(args) {
            Err(err) => Err(err),
            Ok(am) => {
                let mut parts: Vec<ComponentRefPart> = Vec::new();
                parts.push(ComponentRefPart { ident: keyword.duplicate(), subs: None });
                let cref = ComponentReference { local: false, parts };
                proof {
                    crate::ast::lemma_cref_parts_model(cref.parts@);
                    assert(crate::ast::cref_parts_model(cref.parts@) =~= seq![
                        ComponentRefPartModel {
                            ident: keyword@,
                            subs: None::<Seq<SubscriptModel>>,
                        },
                    ]);
                }
                let ghost am_model = exprs_model(am.args@);
                let ghost cref_m = crate::ast::cref_model(cref);
                let out = Expression::FunctionCall { comp: cref, args: am.args };
                proof {
                    assert(cref_m == (ComponentReferenceModel {
                        local: false,
                        parts: seq![
                            ComponentRefPartModel {
                                ident: keyword@,
                                subs: None::<Seq<SubscriptModel>>,
                            },
                        ],
                    }));
                    assert(expr_model(out) == (ExpressionModel::FunctionCall {
                        comp: cref_m,
                        args: am_model,
                    }));
                    assert(spec_lower_primary(*p) == Ok::<ExpressionModel, ErrorModel>(
                        expr_model(out),
                    ));
                }
                Ok(out)
            },
        },
    }
}

/// Lowers a factor; more than one exponent is malformed input.
#[verifier::spinoff_prover]
pub fn lower_factor(f: &SynFactor) -> (r: Result<Expression, Error>)
    ensures
        match r {
            Ok(m) => spec_lower_factor(*f) == Ok::<ExpressionModel, ErrorModel>(expr_model(m)),
            Err(e) => spec_lower_factor(*f) == Err::<ExpressionModel, ErrorModel>(
                error_model(e),
            ),
        },
    decreases *f,
{
    proof {
        reveal_with_fuel(spec_lower_factor, 1);
    }
    if f.exponents.len() == 0 {
        lower_primary(&f.base)
    } else if f.exponents.len() == 1 {
        let base = match lower_primary(&f.base) {
            Ok(m) => m,
            Err(err) => {
                return Err(err);
            },
        };
        proof {
            assert(decreases_to!(*f => f.exponents));
            assert(decreases_to!(f.exponents => f.exponents@));
            assert(decreases_to!(f.exponents@ => f.exponents@[0]));
        }
        match lower_primary(&f.exponents[0]) {
            Ok(exp) => Ok(
                Expression::Binary {
                    op: crate::ast::OpBinary::Exp(crate::visitor::synthetic_token(String::new())),
                    lhs: Box::new(base),
                    rhs: Box::new(exp),
                },
            ),
            Err(err) => Err(err),
        }
    } else {
        let loc = match &f.base {
            SynPrimary::Component { comp, .. } => comp.first.location.duplicate(),
            SynPrimary::UnsignedInteger(t) => t.location.duplicate(),
            SynPrimary::UnsignedReal(t) => t.location.duplicate(),
            SynPrimary::Str(t) => t.location.duplicate(),
            SynPrimary::True(t) => t.location.duplicate(),
            SynPrimary::False(t) => t.location.duplicate(),
            SynPrimary::End(t) => t.location.duplicate(),
            SynPrimary::Array(t) => t.location.duplicate(),
            SynPrimary::RangePrimary(t) => t.location.duplicate(),
            SynPrimary::Output { paren, .. } => paren.location.duplicate(),
            SynPrimary::GlobalCall { keyword, .. } => keyword.location.duplicate(),
        };
        Err(
            Error::MalformedInput {
                reason: "non-associative exponent chain".to_owned(),
                location: loc,
            },
        )
    }
}

/// Lowers a term by the left-associative multiplicative fold.
#[verifier::spinoff_prover]
pub fn lower_term(t: &SynTerm) -> (r: Result<Expression, Error>)
    ensures
        match r {
            Ok(m) => spec_lower_term(*t) == Ok::<ExpressionModel, ErrorModel>(expr_model(m)),
            Err(e) => spec_lower_term(*t) == Err::<ExpressionModel, ErrorModel>(error_model(e)),
        },
    decreases *t,
{
    proof {
        reveal_with_fuel(spec_lower_term, 1);
        reveal_with_fuel(spec_fold_mul, 1);
    }
    let mut acc = match lower_factor(&t.first) {
        Ok(m) => m,
        Err(err) => {
            return Err(err);
        },
    };
    let n = t.rest.len();
    let mut i: usize = 0;
    proof {
        assert(decreases_to!(*t => t.rest));
        assert(decreases_to!(t.rest => t.rest@));
        assert(t.rest@.subrange(0, n as int) =~= t.rest@);
    }
    while i < n
        invariant
            n == t.rest@.len(),
            0 <= i <= n,
            spec_lower_term(*t) == spec_fold_mul(
                expr_model(acc),
                t.rest@.subrange(i as int, n as int),
            ),
            decreases_to!(*t => t.rest@),
        decreases n - i,
    {
        let ghost rrest = t.rest@.subrange(i as int, n as int);
        proof {
            reveal_with_fuel(spec_fold_mul, 1);
            assert(rrest[0] == t.rest@[i as int]);
            assert(decreases_to!(t.rest@ => t.rest@[i as int]));
        }
        let mf = &t.rest[i];
        let rhs = match lower_factor(&mf.factor) {
            Ok(m) => m,
            Err(err) => {
                return Err(err);
            },
        };
        let op = match &mf.op {
            SynMulOp::Star(tok) => crate::ast::OpBinary::Mul(tok.duplicate()),
            SynMulOp::Slash(tok) => crate::ast::OpBinary::Div(tok.duplicate()),
            SynMulOp::DotStar(tok) => crate::ast::OpBinary::MulElem(tok.duplicate()),
            SynMulOp::DotSlash(tok) => crate::ast::OpBinary::DivElem(tok.duplicate()),
        };
        acc = Expression::Binary { op, lhs: Box::new(acc), rhs: Box::new(rhs) };
        proof {
            assert(rrest.subrange(1, rrest.len() as int) =~= t.rest@.subrange(
                i + 1,
                n as int,
            ));
        }
        i += 1;
    }
    proof {
        reveal_with_fuel(spec_fold_mul, 1);
        assert(t.rest@.subrange(n as int, n as int) =~= Seq::<SynMulFactor>::empty());
    }
    Ok(acc)
}

/// Lowers an arithmetic expression: the sign wraps only the first term.
#[verifier::spinoff_prover]
pub fn lower_arithmetic_expression(a: &SynArithmeticExpression) -> (r: Result<Expression, Error>)
    ensures
        match r {
            Ok(m) => spec_lower_arithmetic(*a) == Ok::<ExpressionModel, ErrorModel>(
                expr_model(m),
            ),
            Err(e) => spec_lower_arithmetic(*a) == Err::<ExpressionModel, ErrorModel>(
                error_model(e),
            ),
        },
    decreases *a,
{
    proof {
        reveal_with_fuel(spec_lower_arithmetic, 1);
        reveal_with_fuel(spec_fold_add, 1);
    }
    let first = match lower_term(&a.first) {
        Ok(m) => m,
        Err(err) => {
            return Err(err);
        },
    };
    let mut acc = match &a.sign {
        Some(op) => {
            let u = match op {
                SynAddOp::Plus(tok) => crate::ast::OpUnary::Plus(tok.duplicate()),
                SynAddOp::Minus(tok) => crate::ast::OpUnary::Minus(tok.duplicate()),
                SynAddOp::DotPlus(tok) => crate::ast::OpUnary::DotPlus(tok.duplicate()),
                SynAddOp::DotMinus(tok) => crate::ast::OpUnary::DotMinus(tok.duplicate()),
            };
            Expression::Unary { op: u, rhs: Box::new(first) }
        },
        None => first,
    };
    let n = a.rest.len();
    let mut i: usize = 0;
    proof {
        assert(decreases_to!(*a => a.rest));
        assert(decreases_to!(a.rest => a.rest@));
        assert(a.rest@.subrange(0, n as int) =~= a.rest@);
    }
    while i < n
        invariant
            n == a.rest@.len(),
            0 <= i <= n,
            spec_lower_arithmetic(*a) == spec_fold_add(
                expr_model(acc),
                a.rest@.subrange(i as int, n as int),
            ),
            decreases_to!(*a => a.rest@),
        decreases n - i,
    {
        let ghost rrest = a.rest@.subrange(i as int, n as int);
        proof {
            reveal_with_fuel(spec_fold_add, 1);
            assert(rrest[0] == a.rest@[i as int]);
            assert(decreases_to!(a.rest@ => a.rest@[i as int]));
        }
        let at = &a.rest[i];
        let rhs = match lower_term(&at.term) {
            Ok(m) => m,
            Err(err) => {
                return Err(err);
            },
        };
        let op = match &at.op {
            SynAddOp::Plus(tok) => crate::ast::OpBinary::Add(tok.duplicate()),
            SynAddOp::Minus(tok) => crate::ast::OpBinary::Sub(tok.duplicate()),
            SynAddOp::DotPlus(tok) => crate::ast::OpBinary::AddElem(tok.duplicate()),
            SynAddOp::DotMinus(tok) => crate::ast::OpBinary::SubElem(tok.duplicate()),
        };
        acc = Expression::Binary { op, lhs: Box::new(acc), rhs: Box::new(rhs) };
        proof {
            assert(rrest.subrange(1, rrest.len() as int) =~= a.rest@.subrange(
                i + 1,
                n as int,
            ));
        }
        i += 1;
    }
    proof {
        reveal_with_fuel(spec_fold_add, 1);
        assert(a.rest@.subrange(n as int, n as int) =~= Seq::<SynAddTerm>::empty());
    }
    Ok(acc)
}

/// Lowers a non-chained relation.
#[verifier::spinoff_prover]
pub fn lower_relation(rel: &SynRelation) -> (r: Result<Expression, Error>)
    ensures
        match r {
            Ok(m) => spec_lower_relation(*rel) == Ok::<ExpressionModel, ErrorModel>(
                expr_model(m),
            ),
            Err(e) => spec_lower_relation(*rel) == Err::<ExpressionModel, ErrorModel>(
                error_model(e),
            ),
        },
    decreases *rel,
{
    proof {
        reveal_with_fuel(spec_lower_relation, 1);
    }
    let lhs = match lower_arithmetic_expression(&rel.lhs) {
        Ok(m) => m,
        Err(err) => {
            return Err(err);
        },
    };
    match &rel.tail {
        None => Ok(lhs),
        Some(tail) => {
            proof {
                assert(decreases_to!(*rel => rel.tail));
                assert(decreases_to!(rel.tail => *tail));
            }
            let rhs = match lower_arithmetic_expression(&tail.rhs) {
                Ok(m) => m,
                Err(err) => {
                    return Err(err);
                },
            };
            let op = match &tail.op {
                SynRelOp::EquEqu(tok) => crate::ast::OpBinary::Eq(tok.duplicate()),
                SynRelOp::Gt(tok) => crate::ast::OpBinary::Gt(tok.duplicate()),
                SynRelOp::Lt(tok) => crate::ast::OpBinary::Lt(tok.duplicate()),
                SynRelOp::GtEqu(tok) => crate::ast::OpBinary::Ge(tok.duplicate()),
                SynRelOp::LtEqu(tok) => crate::ast::OpBinary::Le(tok.duplicate()),
                SynRelOp::LtGt(tok) => crate::ast::OpBinary::Neq(tok.duplicate()),
            };
            Ok(Expression::Binary { op, lhs: Box::new(lhs), rhs: Box::new(rhs) })
        },
    }
}

/// Lowers a logical factor: an optional `not`.
#[verifier::spinoff_prover]
pub fn lower_logical_factor(f: &SynLogicalFactor) -> (r: Result<Expression, Error>)
    ensures
        match r {
            Ok(m) => spec_lower_logical_factor(*f) == Ok::<ExpressionModel, ErrorModel>(
                expr_model(m),
            ),
            Err(e) => spec_lower_logical_factor(*f) == Err::<ExpressionModel, ErrorModel>(
                error_model(e),
            ),
        },
    decreases *f,
{
    proof {
        reveal_with_fuel(spec_lower_logical_factor, 1);
    }
    let rel = match lower_relation(&f.relation) {
        Ok(m) => m,
        Err(err) => {
            return Err(err);
        },
    };
    match &f.not_token {
        Some(t) => Ok(
            Expression::Unary { op: crate::ast::OpUnary::Not(t.duplicate()), rhs: Box::new(rel) },
        ),
        None => Ok(rel),
    }
}

/// Lowers a logical term by the left-associative `and` fold.
#[verifier::spinoff_prover]
pub fn lower_logical_term(t: &SynLogicalTerm) -> (r: Result<Expression, Error>)
    ensures
        match r {
            Ok(m) => spec_lower_logical_term(*t) == Ok::<ExpressionModel, ErrorModel>(
                expr_model(m),
            ),
            Err(e) => spec_lower_logical_term(*t) == Err::<ExpressionModel, ErrorModel>(
                error_model(e),
            ),
        },
    decreases *t,
{
    proof {
        reveal_with_fuel(spec_lower_logical_term, 1);
        reveal_with_fuel(spec_fold_and, 1);
    }
    let mut acc = match lower_logical_factor(&t.first) {
        Ok(m) => m,
        Err(err) => {
            return Err(err);
        },
    };
    let n = t.rest.len();
    let mut i: usize = 0;
    proof {
        assert(decreases_to!(*t => t.rest));
        assert(decreases_to!(t.rest => t.rest@));
        assert(t.rest@.subrange(0, n as int) =~= t.rest@);
    }
    while i < n
        invariant
            n == t.rest@.len(),
            0 <= i <= n,
            spec_lower_logical_term(*t) == spec_fold_and(
                expr_model(acc),
                t.rest@.subrange(i as int, n as int),
            ),
            decreases_to!(*t => t.rest@),
        decreases n - i,
    {
        let ghost rrest = t.rest@.subrange(i as int, n as int);
        proof {
            reveal_with_fuel(spec_fold_and, 1);
            assert(rrest[0] == t.rest@[i as int]);
            assert(decreases_to!(t.rest@ => t.rest@[i as int]));
        }
        let rhs = match lower_logical_factor(&t.rest[i]) {
            Ok(m) => m,
            Err(err) => {
                return Err(err);
            },
        };
        acc = Expression::Binary {
            op: crate::ast::OpBinary::And(crate::visitor::synthetic_token(String::new())),
            lhs: Box::new(acc),
            rhs: Box::new(rhs),
        };
        proof {
            assert(rrest.subrange(1, rrest.len() as int) =~= t.rest@.subrange(
                i + 1,
                n as int,
            ));
        }
        i += 1;
    }
    proof {
        reveal_with_fuel(spec_fold_and, 1);
        assert(t.rest@.subrange(n as int, n as int) =~= Seq::<SynLogicalFactor>::empty());
    }
    Ok(acc)
}

/// Lowers a logical expression by the left-associative `or` fold.
#[verifier::spinoff_prover]
pub fn lower_logical_expression(e: &SynLogicalExpression) -> (r: Result<Expression, Error>)
    ensures
        match r {
            Ok(m) => spec_lower_logical_expression(*e) == Ok::<ExpressionModel, ErrorModel>(
                expr_model(m),
            ),
            Err(err) => spec_lower_logical_expression(*e) == Err::<ExpressionModel, ErrorModel>(
                error_model(err),
            ),
        },
    decreases *e,
{
    proof {
        reveal_with_fuel(spec_lower_logical_expression, 1);
        reveal_with_fuel(spec_fold_or, 1);
    }
    let mut acc = match lower_logical_term(&e.first) {
        Ok(m) => m,
        Err(err) => {
            return Err(err);
        },
    };
    let n = e.rest.len();
    let mut i: usize = 0;
    proof {
        assert(decreases_to!(*e => e.rest));
        assert(decreases_to!(e.rest => e.rest@));
        assert(e.rest@.subrange(0, n as int) =~= e.rest@);
    }
    while i < n
        invariant
            n == e.rest@.len(),
            0 <= i <= n,
            spec_lower_logical_expression(*e) == spec_fold_or(
                expr_model(acc),
                e.rest@.subrange(i as int, n as int),
            ),
            decreases_to!(*e => e.rest@),
        decreases n - i,
    {
        let ghost rrest = e.rest@.subrange(i as int, n as int);
        proof {
            reveal_with_fuel(spec_fold_or, 1);
            assert(rrest[0] == e.rest@[i as int]);
            assert(decreases_to!(e.rest@ => e.rest@[i as int]));
        }
        let rhs = match lower_logical_term(&e.rest[i]) {
            Ok(m) => m,
            Err(err) => {
                return Err(err);
            },
        };
        acc = Expression::Binary {
            op: crate::ast::OpBinary::Or(crate::visitor::synthetic_token(String::new())),
            lhs: Box::new(acc),
            rhs: Box::new(rhs),
        };
        proof {
            assert(rrest.subrange(1, rrest.len() as int) =~= e.rest@.subrange(
                i + 1,
                n as int,
            ));
        }
        i += 1;
    }
    proof {
        reveal_with_fuel(spec_fold_or, 1);
        assert(e.rest@.subrange(n as int, n as int) =~= Seq::<SynLogicalTerm>::empty());
    }
    Ok(acc)
}

/// Lowers a simple expression: a logical expression or a range.
#[verifier::spinoff_prover]
pub fn lower_simple_expression(e: &SynSimpleExpression) -> (r: Result<Expression, Error>)
    ensures
        match r {
            Ok(m) => spec_lower_simple_expression(*e) == Ok::<ExpressionModel, ErrorModel>(
                expr_model(m),
            ),
            Err(err) => spec_lower_simple_expression(*e) == Err::<ExpressionModel, ErrorModel>(
                error_model(err),
            ),
        },
    decreases *e,
{
    proof {
        reveal_with_fuel(spec_lower_simple_expression, 1);
    }
    let first = match lower_logical_expression(&e.first) {
        Ok(m) => m,
        Err(err) => {
            return Err(err);
        },
    };
    match &e.range {
        None => Ok(first),
        Some(tail) => {
            proof {
                assert(decreases_to!(*e => e.range));
                assert(decreases_to!(e.range => *tail));
            }
            let second = match lower_logical_expression(&tail.step_or_end) {
                Ok(m) => m,
                Err(err) => {
                    return Err(err);
                },
            };
            match &tail.end {
                None => Ok(
                    Expression::Range {
                        start: Box::new(first),
                        step: None,
                        end: Box::new(second),
                    },
                ),
                Some(third) => {
                    proof {
                        assert(decreases_to!(*tail => tail.end));
                        assert(decreases_to!(tail.end => *third));
                    }
                    match lower_logical_expression(third) {
                        Ok(last) => Ok(
                            Expression::Range {
                                start: Box::new(first),
                                step: Some(Box::new(second)),
                                end: Box::new(last),
                            },
                        ),
                        Err(err) => Err(err),
                    }
                },
            }
        },
    }
}

/// Lowers an expression.
#[verifier::spinoff_prover]
pub fn lower_expression(e: &SynExpression) -> (r: Result<Expression, Error>)
    ensures
        match r {
            Ok(m) => spec_lower_expression(*e) == Ok::<ExpressionModel, ErrorModel>(
                expr_model(m),
            ),
            Err(err) => spec_lower_expression(*e) == Err::<ExpressionModel, ErrorModel>(
                error_model(err),
            ),
        },
    decreases *e,
{
    proof {
        reveal_with_fuel(spec_lower_expression, 1);
    }
    match e {
        SynExpression::Simple(s) => lower_simple_expression(s),
        SynExpression::If(t) => Err(
            Error::Unimplemented {
                construct: "if expression".to_owned(),
                location: t.location.duplicate(),
            },
        ),
    }
}

// ---------------------------------------------------------------------------
// Executable lowering: equations and statements
// ---------------------------------------------------------------------------

/// The location of a primary's leading token.
fn primary_location(p: &SynPrimary) -> (r: crate::ast::Location)
    ensures
        r@ == primary_token(*p).location,
{
    match p {
        SynPrimary::Component { comp, .. } => comp.first.location.duplicate(),
        SynPrimary::UnsignedInteger(t) => t.location.duplicate(),
        SynPrimary::UnsignedReal(t) => t.location.duplicate(),
        SynPrimary::Str(t) => t.location.duplicate(),
        SynPrimary::True(t) => t.location.duplicate(),
        SynPrimary::False(t) => t.location.duplicate(),
        SynPrimary::End(t) => t.location.duplicate(),
        SynPrimary::Array(t) => t.location.duplicate(),
        SynPrimary::RangePrimary(t) => t.location.duplicate(),
        SynPrimary::Output { paren, .. } => paren.location.duplicate(),
        SynPrimary::GlobalCall { keyword, .. } => keyword.location.duplicate(),
    }
}

/// Lowers one equation.
#[verifier::spinoff_prover]
pub fn lower_equation(e: &SynEquation) -> (r: Result<Equation, Error>)
    ensures
        match r {
            Ok(m) => spec_lower_equation(*e) == Ok::<EquationModel, ErrorModel>(eq_model(m)),
            Err(err) => spec_lower_equation(*e) == Err::<EquationModel, ErrorModel>(
                error_model(err),
            ),
        },
    decreases *e,
{
    proof {
        reveal_with_fuel(spec_lower_equation, 1);
    }
    match e {
        SynEquation::Simple { lhs, rhs } => {
            let lm = match lower_simple_expression(lhs) {
                Ok(m) => m,
                Err(err) => {
                    return Err(err);
                },
            };
            match rhs {
                Some(right) => {
                    match lower_expression(right) {
                        Ok(rm) => Ok(Equation::Simple { lhs: lm, rhs: rm }),
                        Err(err) => Err(err),
                    }
                },
                None => match lm {
                    Expression::FunctionCall { comp, args } => {
                        let ghost cm = crate::ast::cref_model(comp);
                        let ghost am = exprs_model(args@);
                        let out = Equation::FunctionCall { comp, args };
                        proof {
                            assert(eq_model(out) == (EquationModel::FunctionCall {
                                comp: cm,
                                args: am,
                            }));
                            assert(spec_lower_equation(*e) == Ok::<EquationModel, ErrorModel>(
                                eq_model(out),
                            ));
                        }
                        Ok(out)
                    },
                    _ => {
                        proof {
                            assert(!(expr_model(lm) is FunctionCall));
                        }
                        Err(
                            Error::MalformedInput {
                                reason: "equation must be a function call".to_owned(),
                                location: primary_location(
                                    &lhs.first.first.first.relation.lhs.first.first.base,
                                ),
                            },
                        )
                    },
                },
            }
        },
        SynEquation::Connect { lhs, rhs } => {
            let lm = match lower_component_reference(lhs) {
                Ok(m) => m,
                Err(err) => {
                    return Err(err);
                },
            };
            match lower_component_reference(rhs) {
                Ok(rm) => Ok(Equation::Connect { lhs: lm, rhs: rm }),
                Err(err) => Err(err),
            }
        },
        SynEquation::If { blocks, else_eqs } => {
            let bm = match lower_eq_blocks(blocks) {
                Ok(m) => m,
                Err(err) => {
                    return Err(err);
                },
            };
            match else_eqs {
                None => Ok(Equation::If { cond_blocks: bm, else_block: None }),
                Some(v) => {
                    proof {
                        assert(decreases_to!(*e => *else_eqs));
                        assert(decreases_to!(*else_eqs => *v));
                        assert(decreases_to!(*v => v@));
                    }
                    match lower_eqs(v) {
                        Ok(em) => Ok(Equation::If { cond_blocks: bm, else_block: Some(em) }),
                        Err(err) => Err(err),
                    }
                },
            }
        },
        SynEquation::When { blocks } => match lower_eq_blocks(blocks) {
            Ok(bm) => Ok(Equation::When(bm)),
            Err(err) => Err(err),
        },
        SynEquation::For(t) => Err(
            Error::Unimplemented {
                construct: "for equation".to_owned(),
                location: t.location.duplicate(),
            },
        ),
    }
}

/// A prefix of successful equations splits the list lowering.
#[verifier::spinoff_prover]
proof fn lemma_lower_eqs_prefix(s: Seq<SynEquation>, i: int)
    requires
        0 <= i <= s.len(),
        forall|j: int| 0 <= j < i ==> spec_lower_equation(s[j]) is Ok,
    ensures
        spec_lower_eqs(s) == match spec_lower_eqs(s.subrange(i, s.len() as int)) {
            Err(e) => Err::<Seq<EquationModel>, ErrorModel>(e),
            Ok(r) => Ok::<Seq<EquationModel>, ErrorModel>(
                Seq::new(i as nat, |j: int| spec_lower_equation(s[j])->Ok_0) + r,
            ),
        },
    decreases i,
{
    reveal_with_fuel(spec_lower_eqs, 1);
    if i == 0 {
        assert(s.subrange(0, s.len() as int) =~= s);
        match spec_lower_eqs(s) {
            Err(_) => {},
            Ok(r) => {
                assert(Seq::new(0, |j: int| spec_lower_equation(s[j])->Ok_0) + r =~= r);
            },
        }
    } else {
        lemma_lower_eqs_prefix(s, i - 1);
        let tail = s.subrange(i - 1, s.len() as int);
        assert(tail[0] == s[i - 1]);
        assert(tail.subrange(1, tail.len() as int) =~= s.subrange(i, s.len() as int));
        match spec_lower_eqs(s.subrange(i, s.len() as int)) {
            Err(_) => {},
            Ok(r) => {
                assert(Seq::new((i - 1) as nat, |j: int| spec_lower_equation(s[j])->Ok_0) + (
                seq![spec_lower_equation(s[i - 1])->Ok_0] + r) =~= Seq::new(
                    i as nat,
                    |j: int| spec_lower_equation(s[j])->Ok_0,
                ) + r);
            },
        }
    }
}

/// Lowers an equation list.
#[verifier::spinoff_prover]
pub fn lower_eqs(v: &Vec<SynEquation>) -> (r: Result<Vec<Equation>, Error>)
    ensures
        match r {
            Ok(m) => spec_lower_eqs(v@) == Ok::<Seq<EquationModel>, ErrorModel>(eqs_model(m@)),
            Err(e) => spec_lower_eqs(v@) == Err::<Seq<EquationModel>, ErrorModel>(
                error_model(e),
            ),
        },
    decreases v@,
{
    proof {
        reveal_with_fuel(spec_lower_eqs, 1);
    }
    let mut out: Vec<Equation> = Vec::new();
    let n = v.len();
    let mut i: usize = 0;
    while i < n
        invariant
            n == v@.len(),
            0 <= i <= n,
            out@.len() == i,
            forall|j: int| 0 <= j < i ==> spec_lower_equation(v@[j]) is Ok,
            forall|j: int|
                0 <= j < i ==> Ok::<EquationModel, ErrorModel>(eq_model(out@[j]))
                    == spec_lower_equation(v@[j]),
        decreases n - i,
    {
        proof {
            assert(decreases_to!(v@ => v@[i as int]));
        }
        match lower_equation(&v[i]) {
            Ok(m) => {
                out.push(m);
            },
            Err(err) => {
                proof {
                    reveal_with_fuel(spec_lower_eqs, 1);
                    lemma_lower_eqs_prefix(v@, i as int);
                    assert(v@.subrange(i as int, v@.len() as int)[0] == v@[i as int]);
                }
                return Err(err);
            },
        }
        i += 1;
    }
    proof {
        lemma_lower_eqs_prefix(v@, n as int);
        crate::ast::lemma_eqs_model(out@);
        assert(v@.subrange(n as int, n as int) =~= Seq::<SynEquation>::empty());
        assert(eqs_model(out@) =~= Seq::new(
            n as nat,
            |j: int| spec_lower_equation(v@[j])->Ok_0,
        ));
    }
    Ok(out)
}

/// Lowers one guarded equation block.
#[verifier::spinoff_prover]
pub fn lower_eq_block(b: &SynEquationBlock) -> (r: Result<EquationBlock, Error>)
    ensures
        match r {
            Ok(m) => spec_lower_eq_block(*b) == Ok::<EquationBlockModel, ErrorModel>(
                eq_block_model(m),
            ),
            Err(e) => spec_lower_eq_block(*b) == Err::<EquationBlockModel, ErrorModel>(
                error_model(e),
            ),
        },
    decreases *b,
{
    proof {
        reveal_with_fuel(spec_lower_eq_block, 1);
    }
    let cm = match lower_expression(&b.cond) {
        Ok(m) => m,
        Err(err) => {
            return Err(err);
        },
    };
    proof {
        assert(decreases_to!(*b => b.eqs));
        assert(decreases_to!(b.eqs => b.eqs@));
    }
    match lower_eqs(&b.eqs) {
        Ok(em) => Ok(EquationBlock { cond: cm, eqs: em }),
        Err(err) => Err(err),
    }
}

/// A prefix of successful blocks splits the block-list lowering.
#[verifier::spinoff_prover]
proof fn lemma_lower_eq_blocks_prefix(s: Seq<SynEquationBlock>, i: int)
    requires
        0 <= i <= s.len(),
        forall|j: int| 0 <= j < i ==> spec_lower_eq_block(s[j]) is Ok,
    ensures
        spec_lower_eq_blocks(s) == match spec_lower_eq_blocks(s.subrange(i, s.len() as int)) {
            Err(e) => Err::<Seq<EquationBlockModel>, ErrorModel>(e),
            Ok(r) => Ok::<Seq<EquationBlockModel>, ErrorModel>(
                Seq::new(i as nat, |j: int| spec_lower_eq_block(s[j])->Ok_0) + r,
            ),
        },
    decreases i,
{
    reveal_with_fuel(spec_lower_eq_blocks, 1);
    if i == 0 {
        assert(s.subrange(0, s.len() as int) =~= s);
        match spec_lower_eq_blocks(s) {
            Err(_) => {},
            Ok(r) => {
                assert(Seq::new(0, |j: int| spec_lower_eq_block(s[j])->Ok_0) + r =~= r);
            },
        }
    } else {
        lemma_lower_eq_blocks_prefix(s, i - 1);
        let tail = s.subrange(i - 1, s.len() as int);
        assert(tail[0] == s[i - 1]);
        assert(tail.subrange(1, tail.len() as int) =~= s.subrange(i, s.len() as int));
        match spec_lower_eq_blocks(s.subrange(i, s.len() as int)) {
            Err(_) => {},
            Ok(r) => {
                assert(Seq::new((i - 1) as nat, |j: int| spec_lower_eq_block(s[j])->Ok_0) + (
                seq![spec_lower_eq_block(s[i - 1])->Ok_0] + r) =~= Seq::new(
                    i as nat,
                    |j: int| spec_lower_eq_block(s[j])->Ok_0,
                ) + r);
            },
        }
    }
}

/// Lowers a block list.
#[verifier::spinoff_prover]
pub fn lower_eq_blocks(v: &Vec<SynEquationBlock>) -> (r: Result<Vec<EquationBlock>, Error>)
    ensures
        match r {
            Ok(m) => spec_lower_eq_blocks(v@) == Ok::<Seq<EquationBlockModel>, ErrorModel>(
                eq_blocks_model(m@),
            ),
            Err(e) => spec_lower_eq_blocks(v@) == Err::<Seq<EquationBlockModel>, ErrorModel>(
                error_model(e),
            ),
        },
    decreases v@,
{
    proof {
        reveal_with_fuel(spec_lower_eq_blocks, 1);
    }
    let mut out: Vec<EquationBlock> = Vec::new();
    let n = v.len();
    let mut i: usize = 0;
    while i < n
        invariant
            n == v@.len(),
            0 <= i <= n,
            out@.len() == i,
            forall|j: int| 0 <= j < i ==> spec_lower_eq_block(v@[j]) is Ok,
            forall|j: int|
                0 <= j < i ==> Ok::<EquationBlockModel, ErrorModel>(eq_block_model(out@[j]))
                    == spec_lower_eq_block(v@[j]),
        decreases n - i,
    {
        proof {
            assert(decreases_to!(v@ => v@[i as int]));
        }
        match lower_eq_block(&v[i]) {
            Ok(m) => {
                out.push(m);
            },
            Err(err) => {
                proof {
                    reveal_with_fuel(spec_lower_eq_blocks, 1);
                    lemma_lower_eq_blocks_prefix(v@, i as int);
                    assert(v@.subrange(i as int, v@.len() as int)[0] == v@[i as int]);
                }
                return Err(err);
            },
        }
        i += 1;
    }
    proof {
        lemma_lower_eq_blocks_prefix(v@, n as int);
        crate::ast::lemma_eq_blocks_model(out@);
        assert(v@.subrange(n as int, n as int) =~= Seq::<SynEquationBlock>::empty());
        assert(eq_blocks_model(out@) =~= Seq::new(
            n as nat,
            |j: int| spec_lower_eq_block(v@[j])->Ok_0,
        ));
    }
    Ok(out)
}

/// Lowers one statement.
#[verifier::spinoff_prover]
pub fn lower_statement(s: &SynStatement) -> (r: Result<Statement, Error>)
    ensures
        match r {
            Ok(m) => spec_lower_statement(*s) == Ok::<StatementModel, ErrorModel>(stmt_model(m)),
            Err(e) => spec_lower_statement(*s) == Err::<StatementModel, ErrorModel>(
                error_model(e),
            ),
        },
{
    proof {
        reveal_with_fuel(spec_lower_statement, 1);
    }
    match s {
        SynStatement::Assignment { comp, value } => {
            let cm = match lower_component_reference(comp) {
                Ok(m) => m,
                Err(err) => {
                    return Err(err);
                },
            };
            match lower_expression(value) {
                Ok(vm) => Ok(Statement::Assignment { comp: cm, value: vm }),
                Err(err) => Err(err),
            }
        },
        SynStatement::Call { comp, args } => {
            let cm = match lower_component_reference(comp) {
                Ok(m) => m,
                Err(err) => {
                    return Err(err);
                },
            };
            match lower_call_args(args) {
                Ok(am) => Ok(Statement::FunctionCall { comp: cm, args: am.args }),
                Err(err) => Err(err),
            }
        },
        SynStatement::Break(t) => Ok(Statement::Break { token: t.duplicate() }),
        SynStatement::Return(t) => Ok(Statement::Return { token: t.duplicate() }),
        SynStatement::For(t) => Err(
            Error::Unimplemented {
                construct: "for statement".to_owned(),
                location: t.location.duplicate(),
            },
        ),
        SynStatement::If(t) => Err(
            Error::Unimplemented {
                construct: "if statement".to_owned(),
                location: t.location.duplicate(),
            },
        ),
        SynStatement::When(t) => Err(
            Error::Unimplemented {
                construct: "when statement".to_owned(),
                location: t.location.duplicate(),
            },
        ),
        SynStatement::While(t) => Err(
            Error::Unimplemented {
                construct: "while statement".to_owned(),
                location: t.location.duplicate(),
            },
        ),
        SynStatement::CallOutput(t) => Err(
            Error::Unimplemented {
                construct: "function call statement".to_owned(),
                location: t.location.duplicate(),
            },
        ),
    }
}

/// A prefix of successful statements splits the list lowering.
#[verifier::spinoff_prover]
proof fn lemma_lower_stmts_prefix(s: Seq<SynStatement>, i: int)
    requires
        0 <= i <= s.len(),
        forall|j: int| 0 <= j < i ==> spec_lower_statement(s[j]) is Ok,
    ensures
        spec_lower_stmts(s) == match spec_lower_stmts(s.subrange(i, s.len() as int)) {
            Err(e) => Err::<Seq<StatementModel>, ErrorModel>(e),
            Ok(r) => Ok::<Seq<StatementModel>, ErrorModel>(
                Seq::new(i as nat, |j: int| spec_lower_statement(s[j])->Ok_0) + r,
            ),
        },
    decreases i,
{
    reveal_with_fuel(spec_lower_stmts, 1);
    if i == 0 {
        assert(s.subrange(0, s.len() as int) =~= s);
        match spec_lower_stmts(s) {
            Err(_) => {},
            Ok(r) => {
                assert(Seq::new(0, |j: int| spec_lower_statement(s[j])->Ok_0) + r =~= r);
            },
        }
    } else {
        lemma_lower_stmts_prefix(s, i - 1);
        let tail = s.subrange(i - 1, s.len() as int);
        assert(tail[0] == s[i - 1]);
        assert(tail.subrange(1, tail.len() as int) =~= s.subrange(i, s.len() as int));
        match spec_lower_stmts(s.subrange(i, s.len() as int)) {
            Err(_) => {},
            Ok(r) => {
                assert(Seq::new((i - 1) as nat, |j: int| spec_lower_statement(s[j])->Ok_0) + (
                seq![spec_lower_statement(s[i - 1])->Ok_0] + r) =~= Seq::new(
                    i as nat,
                    |j: int| spec_lower_statement(s[j])->Ok_0,
                ) + r);
            },
        }
    }
}

/// Lowers a statement list.
#[verifier::spinoff_prover]
pub fn lower_stmts(v: &Vec<SynStatement>) -> (r: Result<Vec<Statement>, Error>)
    ensures
        match r {
            Ok(m) => spec_lower_stmts(v@) == Ok::<Seq<StatementModel>, ErrorModel>(
                stmts_model(m@),
            ),
            Err(e) => spec_lower_stmts(v@) == Err::<Seq<StatementModel>, ErrorModel>(
                error_model(e),
            ),
        },
{
    proof {
        reveal_with_fuel(spec_lower_stmts, 1);
    }
    let mut out: Vec<Statement> = Vec::new();
    let n = v.len();
    let mut i: usize = 0;
    while i < n
        invariant
            n == v@.len(),
            0 <= i <= n,
            out@.len() == i,
            forall|j: int| 0 <= j < i ==> spec_lower_statement(v@[j]) is Ok,
            forall|j: int|
                0 <= j < i ==> Ok::<StatementModel, ErrorModel>(stmt_model(out@[j]))
                    == spec_lower_statement(v@[j]),
        decreases n - i,
    {
        match lower_statement(&v[i]) {
            Ok(m) => {
                out.push(m);
            },
            Err(err) => {
                proof {
                    reveal_with_fuel(spec_lower_stmts, 1);
                    lemma_lower_stmts_prefix(v@, i as int);
                    assert(v@.subrange(i as int, v@.len() as int)[0] == v@[i as int]);
                }
                return Err(err);
            },
        }
        i += 1;
    }
    proof {
        lemma_lower_stmts_prefix(v@, n as int);
        assert(v@.subrange(n as int, n as int) =~= Seq::<SynStatement>::empty());
        assert(stmts_model(out@) =~= Seq::new(
            n as nat,
            |j: int| spec_lower_statement(v@[j])->Ok_0,
        ));
    }
    Ok(out)
}

/// Lowers one guarded statement block.
#[verifier::spinoff_prover]
pub fn lower_statement_block(b: &SynStatementBlock) -> (r: Result<StatementBlock, Error>)
    ensures
        match r {
            Ok(m) => spec_lower_statement_block(*b) == Ok::<StatementBlockModel, ErrorModel>(
                stmt_block_model(m),
            ),
            Err(e) => spec_lower_statement_block(*b) == Err::<StatementBlockModel, ErrorModel>(
                error_model(e),
            ),
        },
{
    proof {
        reveal_with_fuel(spec_lower_statement_block, 1);
    }
    let cm = match lower_expression(&b.cond) {
        Ok(m) => m,
        Err(err) => {
            return Err(err);
        },
    };
    match lower_stmts(&b.stmts) {
        Ok(sm) => Ok(StatementBlock { cond: cm, stmts: sm }),
        Err(err) => Err(err),
    }
}

// ---------------------------------------------------------------------------
// Executable lowering: components, element lists, classes
// ---------------------------------------------------------------------------

/// The outputs of a lowered element list: the four ordered streams.
#[derive(Debug, PartialEq, Eq)]
pub struct ElementList {
    pub classes: ClassMap,
    pub components: OrderedMap<Component>,
    pub imports: Vec<String>,
    pub extends: Vec<Extend>,
}

/// The outputs of a lowered composition.
#[derive(Debug, PartialEq, Eq)]
pub struct Composition {
    pub classes: ClassMap,
    pub components: OrderedMap<Component>,
    pub imports: Vec<String>,
    pub extends: Vec<Extend>,
    pub equations: Vec<Equation>,
    pub initial_equations: Vec<Equation>,
    pub algorithms: Vec<Vec<Statement>>,
    pub initial_algorithms: Vec<Vec<Statement>>,
}

/// The model of the four element streams.
pub open spec fn element_streams_model(
    classes: ClassMap,
    components: OrderedMap<Component>,
    imports: Seq<String>,
    extends: Seq<Extend>,
) -> ElementListModel {
    ElementListModel {
        classes: class_entries_model(classes.key_seq(), classes.val_seq()),
        components: comp_entries_model(components.key_seq(), components.val_seq()),
        imports: imports.map_values(|s: String| s@),
        extends: extends.map_values(|e: Extend| extend_model(e)),
    }
}

/// Model of an [`ElementList`].
pub open spec fn element_list_model(el: ElementList) -> ElementListModel {
    element_streams_model(el.classes, el.components, el.imports@, el.extends@)
}

/// Well-formed element list: both maps well-formed, nested classes too.
pub open spec fn el_wf(el: ElementList) -> bool {
    &&& class_map_wf(el.classes)
    &&& el.components.wf()
}

/// Model of a [`Composition`].
pub open spec fn composition_model(c: Composition) -> CompositionModel {
    CompositionModel {
        classes: class_entries_model(c.classes.key_seq(), c.classes.val_seq()),
        components: comp_entries_model(c.components.key_seq(), c.components.val_seq()),
        imports: c.imports@.map_values(|s: String| s@),
        extends: c.extends@.map_values(|e: Extend| extend_model(e)),
        equations: eqs_model(c.equations@),
        initial_equations: eqs_model(c.initial_equations@),
        algorithms: Seq::new(c.algorithms@.len(), |i: int| stmts_model(c.algorithms@[i]@)),
        initial_algorithms: Seq::new(
            c.initial_algorithms@.len(),
            |i: int| stmts_model(c.initial_algorithms@[i]@),
        ),
    }
}

/// Well-formed composition: both maps well-formed, nested classes too.
pub open spec fn comp_wf(c: Composition) -> bool {
    &&& class_map_wf(c.classes)
    &&& c.components.wf()
}

/// First index whose key is `k` among class entries, or `-1`: see
/// [`klass_index_of`].
#[verifier::spinoff_prover]
proof fn lemma_klass_index_of(s: Seq<(Seq<char>, ClassModel)>, k: Seq<char>)
    ensures
        klass_index_of(s, k) == -1 ==> forall|i: int| 0 <= i < s.len() ==> s[i].0 != k,
        klass_index_of(s, k) != -1 ==> 0 <= klass_index_of(s, k) < s.len() && s[klass_index_of(
            s,
            k,
        )].0 == k,
        klass_index_of(s, k) != -1 ==> forall|i: int|
            0 <= i < klass_index_of(s, k) ==> s[i].0 != k,
    decreases s,
{
    if s.len() > 0 && s[0].0 != k {
        let sub = s.subrange(1, s.len() as int);
        lemma_klass_index_of(sub, k);
        assert forall|i: int| 1 <= i < s.len() implies s[i] == sub[i - 1] by {}
    }
}

/// The class-entry index of a key equals its key-sequence index when the
/// entry keys mirror the key sequence.
#[verifier::spinoff_prover]
proof fn lemma_klass_vs_keys(keys: Seq<Seq<char>>, e: Seq<(Seq<char>, ClassModel)>, k: Seq<char>)
    requires
        e.len() == keys.len(),
        forall|i: int| 0 <= i < e.len() ==> (#[trigger] e[i]).0 == keys[i],
    ensures
        klass_index_of(e, k) == seq_index_of(keys, k),
    decreases e,
{
    if e.len() > 0 && e[0].0 != k {
        let esub = e.subrange(1, e.len() as int);
        let ksub = keys.subrange(1, keys.len() as int);
        assert forall|i: int| 0 <= i < esub.len() implies (#[trigger] esub[i]).0 == ksub[i] by {
            assert(esub[i] == e[i + 1]);
            assert(ksub[i] == keys[i + 1]);
        }
        lemma_klass_vs_keys(ksub, esub, k);
    }
}

/// Builds the default start value for a declared type.
fn default_start(tname: &String) -> (r: Expression)
    ensures
        expr_model(r) == spec_default_start(tname@),
{
    let real_lit: String = "Real".to_owned();
    let int_lit: String = "Integer".to_owned();
    let bool_lit: String = "Bool".to_owned();
    if tname.eq(&real_lit) {
        Expression::Terminal {
            terminal_type: TerminalType::UnsignedReal,
            token: crate::visitor::synthetic_token("0.0".to_owned()),
        }
    } else if tname.eq(&int_lit) {
        Expression::Terminal {
            terminal_type: TerminalType::UnsignedInteger,
            token: crate::visitor::synthetic_token("0".to_owned()),
        }
    } else if tname.eq(&bool_lit) {
        Expression::Terminal {
            terminal_type: TerminalType::Bool,
            token: crate::visitor::synthetic_token("false".to_owned()),
        }
    } else {
        Expression::Empty
    }
}

/// Lowers one declared identifier of a component clause.
#[verifier::spinoff_prover]
pub fn lower_component_declaration(decl: &SynComponentDeclaration, clause: &SynComponentClause) -> (r:
    Result<Component, Error>)
    ensures
        match r {
            Ok(m) => spec_lower_component_declaration(*decl, *clause) == Ok::<
                ComponentModel,
                ErrorModel,
            >(comp_model(m)),
            Err(e) => spec_lower_component_declaration(*decl, *clause) == Err::<
                ComponentModel,
                ErrorModel,
            >(error_model(e)),
        },
{
    proof {
        reveal_with_fuel(spec_lower_component_declaration, 1);
    }
    let tn = lower_name(&clause.type_specifier);
    let txt = tn.text();
    proof {
        assert(txt@ == spec_name_text(clause.type_specifier));
    }
    let start = match &decl.modification {
        None => default_start(&txt),
        Some(m) => match m {
            SynModification::Class(_) => default_start(&txt),
            SynModification::Expression(e) => match lower_expression(e) {
                Ok(sm) => sm,
                Err(err) => {
                    return Err(err);
                },
            },
            SynModification::Break(t) => {
                return Err(
                    Error::Unimplemented {
                        construct: "break modification".to_owned(),
                        location: t.location.duplicate(),
                    },
                );
            },
        },
    };
    let out = Component {
        name: decl.ident.text.clone(),
        type_specifier: tn,
        variability: clause.variability.duplicate(),
        causality: clause.causality.duplicate(),
        connection: clause.connection.duplicate(),
        description: lower_description(&decl.description).tokens,
        start,
    };
    proof {
        assert(spec_lower_component_declaration(*decl, *clause) == Ok::<
            ComponentModel,
            ErrorModel,
        >(comp_model(out)));
    }
    Ok(out)
}

/// A prefix of successful declarations splits the clause lowering.
#[verifier::spinoff_prover]
proof fn lemma_lower_decls_prefix(
    s: Seq<SynComponentDeclaration>,
    clause: SynComponentClause,
    i: int,
)
    requires
        0 <= i <= s.len(),
        forall|j: int| 0 <= j < i ==> spec_lower_component_declaration(s[j], clause) is Ok,
    ensures
        spec_lower_component_clause_decls(s, clause) == match spec_lower_component_clause_decls(
            s.subrange(i, s.len() as int),
            clause,
        ) {
            Err(e) => Err::<Seq<ComponentModel>, ErrorModel>(e),
            Ok(r) => Ok::<Seq<ComponentModel>, ErrorModel>(
                Seq::new(i as nat, |j: int| spec_lower_component_declaration(s[j], clause)->Ok_0)
                    + r,
            ),
        },
    decreases i,
{
    reveal_with_fuel(spec_lower_component_clause_decls, 1);
    if i == 0 {
        assert(s.subrange(0, s.len() as int) =~= s);
        match spec_lower_component_clause_decls(s, clause) {
            Err(_) => {},
            Ok(r) => {
                assert(Seq::new(
                    0,
                    |j: int| spec_lower_component_declaration(s[j], clause)->Ok_0,
                ) + r =~= r);
            },
        }
    } else {
        lemma_lower_decls_prefix(s, clause, i - 1);
        let tail = s.subrange(i - 1, s.len() as int);
        assert(tail[0] == s[i - 1]);
        assert(tail.subrange(1, tail.len() as int) =~= s.subrange(i, s.len() as int));
        match spec_lower_component_clause_decls(s.subrange(i, s.len() as int), clause) {
            Err(_) => {},
            Ok(r) => {
                assert(Seq::new(
                    (i - 1) as nat,
                    |j: int| spec_lower_component_declaration(s[j], clause)->Ok_0,
                ) + (seq![spec_lower_component_declaration(s[i - 1], clause)->Ok_0] + r)
                    =~= Seq::new(
                    i as nat,
                    |j: int| spec_lower_component_declaration(s[j], clause)->Ok_0,
                ) + r);
            },
        }
    }
}

/// Lowers a component clause: one component per declared identifier.
#[verifier::spinoff_prover]
pub fn lower_component_clause(c: &SynComponentClause) -> (r: Result<Vec<Component>, Error>)
    ensures
        match r {
            Ok(m) => spec_lower_component_clause_decls(c.components@, *c) == Ok::<
                Seq<ComponentModel>,
                ErrorModel,
            >(comps_model(m@)),
            Err(e) => spec_lower_component_clause_decls(c.components@, *c) == Err::<
                Seq<ComponentModel>,
                ErrorModel,
            >(error_model(e)),
        },
{
    proof {
        reveal_with_fuel(spec_lower_component_clause_decls, 1);
    }
    let mut out: Vec<Component> = Vec::new();
    let n = c.components.len();
    let mut i: usize = 0;
    while i < n
        invariant
            n == c.components@.len(),
            0 <= i <= n,
            out@.len() == i,
            forall|j: int|
                0 <= j < i ==> spec_lower_component_declaration(c.components@[j], *c) is Ok,
            forall|j: int|
                0 <= j < i ==> Ok::<ComponentModel, ErrorModel>(comp_model(out@[j]))
                    == spec_lower_component_declaration(c.components@[j], *c),
        decreases n - i,
    {
        match lower_component_declaration(&c.components[i], c) {
            Ok(m) => {
                out.push(m);
            },
            Err(err) => {
                proof {
                    reveal_with_fuel(spec_lower_component_clause_decls, 1);
                    lemma_lower_decls_prefix(c.components@, *c, i as int);
                    assert(c.components@.subrange(i as int, c.components@.len() as int)[0]
                        == c.components@[i as int]);
                }
                return Err(err);
            },
        }
        i += 1;
    }
    proof {
        lemma_lower_decls_prefix(c.components@, *c, n as int);
        assert(c.components@.subrange(n as int, n as int) =~= Seq::<
            SynComponentDeclaration,
        >::empty());
        assert(comps_model(out@) =~= Seq::new(
            n as nat,
            |j: int| spec_lower_component_declaration(c.components@[j], *c)->Ok_0,
        ));
    }
    Ok(out)
}

/// Lowers an element list, splitting the elements in order into nested
/// classes, components, extends and imports.
#[verifier::rlimit(100)]
#[verifier::spinoff_prover]
pub fn lower_elements(elements: &Vec<SynElement>) -> (r: Result<ElementList, Error>)
    ensures
        match r {
            Ok(el) => el_wf(el) && spec_lower_elements(elements@, empty_element_list_model())
                == Ok::<ElementListModel, ErrorModel>(element_list_model(el)),
            Err(e) => spec_lower_elements(elements@, empty_element_list_model()) == Err::<
                ElementListModel,
                ErrorModel,
            >(error_model(e)),
        },
    decreases elements@, 0int,
{
    proof {
        reveal_with_fuel(spec_lower_elements, 1);
    }
    let mut classes = ClassMap::new();
    let mut components: OrderedMap<Component> = OrderedMap::new();
    let mut imports: Vec<String> = Vec::new();
    let mut extends: Vec<Extend> = Vec::new();
    let n = elements.len();
    let mut i: usize = 0;
    proof {
        assert(class_entries_model(classes.key_seq(), classes.val_seq()) =~= Seq::<
            (Seq<char>, ClassModel),
        >::empty());
        assert(comp_entries_model(components.key_seq(), components.val_seq()) =~= Seq::<
            (Seq<char>, ComponentModel),
        >::empty());
        assert(imports@.map_values(|s: String| s@) =~= Seq::<Seq<char>>::empty());
        assert(extends@.map_values(|e: Extend| extend_model(e)) =~= Seq::<ExtendModel>::empty());
        assert(element_streams_model(classes, components, imports@, extends@)
            == empty_element_list_model());
        assert(elements@.subrange(0, n as int) =~= elements@);
        lemma_classes_deep_wf(classes.val_seq());
    }
    while i < n
        invariant
            n == elements@.len(),
            0 <= i <= n,
            class_map_wf(classes),
            components.wf(),
            spec_lower_elements(
                elements@.subrange(i as int, n as int),
                element_streams_model(classes, components, imports@, extends@),
            ) == spec_lower_elements(elements@, empty_element_list_model()),
        decreases n - i,
    {
        let ghost erest = elements@.subrange(i as int, n as int);
        let ghost cur = element_streams_model(classes, components, imports@, extends@);
        proof {
            reveal_with_fuel(spec_lower_elements, 1);
            assert(erest[0] == elements@[i as int]);
            assert(erest.subrange(1, erest.len() as int) =~= elements@.subrange(
                i + 1,
                n as int,
            ));
        }
        match &elements[i] {
            SynElement::ClassDefinition(cd) => {
                proof {
                    assert(decreases_to!(elements@ => elements@[i as int]));
                    assert(decreases_to!(elements@[i as int] => elements@[i as int]->ClassDefinition_0));
                }
                let km = match lower_class_definition(cd) {
                    Ok(k) => k,
                    Err(err) => {
                        return Err(err);
                    },
                };
                let key = km.name.text.clone();
                let ghost old_entries = class_entries_model(classes.key_seq(), classes.val_seq());
                proof {
                    lemma_class_entries_model(classes.key_seq(), classes.val_seq());
                    lemma_klass_vs_keys(classes.key_seq(), old_entries, key@);
                    lemma_seq_index_of(classes.key_seq(), key@);
                    lemma_klass_index_of(old_entries, key@);
                    lemma_classes_deep_wf(classes.val_seq());
                }
                let ghost km_model = class_model(km);
                classes.insert(key, km);
                proof {
                    lemma_class_entries_model(classes.key_seq(), classes.val_seq());
                    assert(class_entries_model(classes.key_seq(), classes.val_seq())
                        =~= klass_insert(old_entries, km_model.name.text, km_model));
                    lemma_classes_deep_wf(classes.val_seq());
                    assert(class_map_wf(classes));
                    assert(element_streams_model(classes, components, imports@, extends@)
                        == (ElementListModel {
                        classes: klass_insert(cur.classes, km_model.name.text, km_model),
                        ..cur
                    }));
                }
            },
            SynElement::ComponentClause(cc) => {
                let comps = match lower_component_clause(cc) {
                    Ok(v) => v,
                    Err(err) => {
                        return Err(err);
                    },
                };
                let ghost all = comps_model(comps@);
                let ghost start_entries = comp_entries_model(
                    components.key_seq(),
                    components.val_seq(),
                );
                let m = comps.len();
                let mut j: usize = 0;
                proof {
                    assert(all.subrange(0, m as int) =~= all);
                }
                while j < m
                    invariant
                        m == comps@.len(),
                        0 <= j <= m,
                        all == comps_model(comps@),
                        all.len() == m,
                        components.wf(),
                        insert_components(
                            comp_entries_model(components.key_seq(), components.val_seq()),
                            all.subrange(j as int, m as int),
                        ) == insert_components(start_entries, all),
                    decreases m - j,
                {
                    let ghost srest = all.subrange(j as int, m as int);
                    let ghost before = comp_entries_model(
                        components.key_seq(),
                        components.val_seq(),
                    );
                    proof {
                        reveal_with_fuel(insert_components, 1);
                        assert(srest[0] == all[j as int]);
                        lemma_centry_vs_keys(components.key_seq(), before, comps@[j as int].name@);
                        lemma_seq_index_of(components.key_seq(), comps@[j as int].name@);
                        lemma_centry_index_of(before, comps@[j as int].name@);
                    }
                    let ckey = comps[j].name.clone();
                    let cval = comps[j].duplicate();
                    components.insert(ckey, cval);
                    proof {
                        assert(comp_entries_model(components.key_seq(), components.val_seq())
                            =~= centry_insert(before, all[j as int].name, all[j as int]));
                        assert(srest.subrange(1, srest.len() as int) =~= all.subrange(
                            j + 1,
                            m as int,
                        ));
                    }
                    j += 1;
                }
                proof {
                    reveal_with_fuel(insert_components, 1);
                    assert(all.subrange(m as int, m as int) =~= Seq::<ComponentModel>::empty());
                    assert(element_streams_model(classes, components, imports@, extends@)
                        == (ElementListModel {
                        components: insert_components(cur.components, all),
                        ..cur
                    }));
                }
            },
            SynElement::Import { name } => {
                let nm = lower_name(name);
                let txt = nm.text();
                let ghost old_imports = imports@;
                imports.push(txt);
                proof {
                    assert(imports@.map_values(|s: String| s@) =~= old_imports.map_values(
                        |s: String| s@,
                    ).push(spec_name_text(*name)));
                    assert(element_streams_model(classes, components, imports@, extends@)
                        == (ElementListModel {
                        imports: cur.imports.push(spec_name_text(*name)),
                        ..cur
                    }));
                }
            },
            SynElement::ImportRenaming(t) => {
                return Err(
                    Error::Unimplemented {
                        construct: "renaming import".to_owned(),
                        location: t.location.duplicate(),
                    },
                );
            },
            SynElement::Extends { name, modification, annotation } => {
                match modification {
                    Some(t) => {
                        return Err(
                            Error::Unimplemented {
                                construct: "inheritance modification".to_owned(),
                                location: t.location.duplicate(),
                            },
                        );
                    },
                    None => {},
                }
                match annotation {
                    Some(t) => {
                        return Err(
                            Error::Unimplemented {
                                construct: "extends annotation".to_owned(),
                                location: t.location.duplicate(),
                            },
                        );
                    },
                    None => {},
                }
                let ghost old_extends = extends@;
                extends.push(Extend { comp: lower_name(name) });
                proof {
                    assert(extends@.map_values(|e: Extend| extend_model(e)) =~= old_extends
                        .map_values(|e: Extend| extend_model(e)).push(
                        ExtendModel { comp: spec_lower_name(*name) },
                    ));
                    assert(element_streams_model(classes, components, imports@, extends@)
                        == (ElementListModel {
                        extends: cur.extends.push(ExtendModel { comp: spec_lower_name(*name) }),
                        ..cur
                    }));
                }
            },
            SynElement::Replaceable(t) => {
                return Err(
                    Error::Unimplemented {
                        construct: "replaceable element".to_owned(),
                        location: t.location.duplicate(),
                    },
                );
            },
        }
        i += 1;
    }
    proof {
        assert(elements@.subrange(n as int, n as int) =~= Seq::<SynElement>::empty());
    }
    let el = ElementList { classes, components, imports, extends };
    proof {
        assert(element_list_model(el) == element_streams_model(
            el.classes,
            el.components,
            el.imports@,
            el.extends@,
        ));
    }
    Ok(el)
}

/// Lowers a composition: the leading element list, then the equation and
/// algorithm sections in order.
#[verifier::rlimit(100)]
#[verifier::spinoff_prover]
pub fn lower_composition(c: &SynComposition) -> (r: Result<Composition, Error>)
    ensures
        match r {
            Ok(m) => comp_wf(m) && spec_lower_composition(*c) == Ok::<
                CompositionModel,
                ErrorModel,
            >(composition_model(m)),
            Err(e) => spec_lower_composition(*c) == Err::<CompositionModel, ErrorModel>(
                error_model(e),
            ),
        },
    decreases *c, 1int,
{
    proof {
        reveal_with_fuel(spec_lower_composition, 1);
        reveal_with_fuel(spec_lower_sections, 1);
        assert(decreases_to!(*c => c.element_list));
        assert(decreases_to!(c.element_list => c.element_list.elements));
        assert(decreases_to!(c.element_list.elements => c.element_list.elements@));
    }
    let el = match lower_elements(&c.element_list.elements) {
        Ok(el) => el,
        Err(err) => {
            return Err(err);
        },
    };
    let ghost elm = element_list_model(el);
    let mut comp = Composition {
        classes: el.classes,
        components: el.components,
        imports: el.imports,
        extends: el.extends,
        equations: Vec::new(),
        initial_equations: Vec::new(),
        algorithms: Vec::new(),
        initial_algorithms: Vec::new(),
    };
    let ghost acc0 = CompositionModel {
        classes: elm.classes,
        components: elm.components,
        imports: elm.imports,
        extends: elm.extends,
        equations: Seq::empty(),
        initial_equations: Seq::empty(),
        algorithms: Seq::empty(),
        initial_algorithms: Seq::empty(),
    };
    let sn = c.sections.len();
    let mut si: usize = 0;
    proof {
        assert(eqs_model(comp.equations@) =~= Seq::<EquationModel>::empty());
        assert(eqs_model(comp.initial_equations@) =~= Seq::<EquationModel>::empty());
        assert(Seq::new(comp.algorithms@.len(), |i: int| stmts_model(comp.algorithms@[i]@))
            =~= Seq::<Seq<StatementModel>>::empty());
        assert(Seq::new(
            comp.initial_algorithms@.len(),
            |i: int| stmts_model(comp.initial_algorithms@[i]@),
        ) =~= Seq::<Seq<StatementModel>>::empty());
        assert(composition_model(comp) == acc0);
        assert(c.sections@.subrange(0, sn as int) =~= c.sections@);
    }
    while si < sn
        invariant
            sn == c.sections@.len(),
            0 <= si <= sn,
            class_map_wf(comp.classes),
            comp.components.wf(),
            spec_lower_composition(*c) == spec_lower_sections(c.sections@, acc0),
            spec_lower_sections(c.sections@.subrange(si as int, sn as int), composition_model(comp))
                == spec_lower_sections(c.sections@, acc0),
        decreases sn - si,
    {
        let ghost srest = c.sections@.subrange(si as int, sn as int);
        let ghost curm = composition_model(comp);
        proof {
            reveal_with_fuel(spec_lower_sections, 1);
            assert(srest[0] == c.sections@[si as int]);
            assert(srest.subrange(1, srest.len() as int) =~= c.sections@.subrange(
                si + 1,
                sn as int,
            ));
        }
        match &c.sections[si] {
            SynCompositionSection::Public(t) => {
                proof {
                    reveal_with_fuel(spec_lower_composition, 1);
                }
                return Err(
                    Error::Unimplemented {
                        construct: "public element list".to_owned(),
                        location: t.location.duplicate(),
                    },
                );
            },
            SynCompositionSection::Protected(t) => {
                proof {
                    reveal_with_fuel(spec_lower_composition, 1);
                }
                return Err(
                    Error::Unimplemented {
                        construct: "protected element list".to_owned(),
                        location: t.location.duplicate(),
                    },
                );
            },
            SynCompositionSection::EquationSection(es) => {
                let mut eqs = match lower_eqs(&es.equations) {
                    Ok(v) => v,
                    Err(err) => {
                        proof {
                            reveal_with_fuel(spec_lower_composition, 1);
                        }
                        return Err(err);
                    },
                };
                let ghost eqs_view = eqs@;
                if es.initial {
                    let ghost pre = comp.initial_equations@;
                    comp.initial_equations.append(&mut eqs);
                    proof {
                        crate::ast::lemma_eqs_model_concat(pre, eqs_view);
                        assert(comp.initial_equations@ == pre + eqs_view);
                        assert(composition_model(comp) == (CompositionModel {
                            initial_equations: curm.initial_equations + eqs_model(eqs_view),
                            ..curm
                        }));
                    }
                } else {
                    let ghost pre = comp.equations@;
                    comp.equations.append(&mut eqs);
                    proof {
                        crate::ast::lemma_eqs_model_concat(pre, eqs_view);
                        assert(comp.equations@ == pre + eqs_view);
                        assert(composition_model(comp) == (CompositionModel {
                            equations: curm.equations + eqs_model(eqs_view),
                            ..curm
                        }));
                    }
                }
            },
            SynCompositionSection::AlgorithmSection(als) => {
                let stmts = match lower_stmts(&als.statements) {
                    Ok(v) => v,
                    Err(err) => {
                        proof {
                            reveal_with_fuel(spec_lower_composition, 1);
                        }
                        return Err(err);
                    },
                };
                let ghost stmts_view = stmts@;
                if als.initial {
                    let ghost pre = comp.initial_algorithms@;
                    comp.initial_algorithms.push(stmts);
                    proof {
                        assert(Seq::new(
                            comp.initial_algorithms@.len(),
                            |i: int| stmts_model(comp.initial_algorithms@[i]@),
                        ) =~= Seq::new(pre.len(), |i: int| stmts_model(pre[i]@)).push(
                            stmts_model(stmts_view),
                        ));
                        assert(composition_model(comp) == (CompositionModel {
                            initial_algorithms: curm.initial_algorithms.push(
                                stmts_model(stmts_view),
                            ),
                            ..curm
                        }));
                    }
                } else {
                    let ghost pre = comp.algorithms@;
                    comp.algorithms.push(stmts);
                    proof {
                        assert(Seq::new(
                            comp.algorithms@.len(),
                            |i: int| stmts_model(comp.algorithms@[i]@),
                        ) =~= Seq::new(pre.len(), |i: int| stmts_model(pre[i]@)).push(
                            stmts_model(stmts_view),
                        ));
                        assert(composition_model(comp) == (CompositionModel {
                            algorithms: curm.algorithms.push(stmts_model(stmts_view)),
                            ..curm
                        }));
                    }
                }
            },
        }
        si += 1;
    }
    proof {
        assert(c.sections@.subrange(sn as int, sn as int) =~= Seq::<
            SynCompositionSection,
        >::empty());
    }
    Ok(comp)
}

/// Lowers a class definition; only the long standard specifier is
/// supported.
#[verifier::spinoff_prover]
pub fn lower_class_definition(cd: &SynClassDefinition) -> (r: Result<ClassDefinition, Error>)
    ensures
        match r {
            Ok(k) => class_wf(k) && spec_lower_class_definition(*cd) == Ok::<
                ClassModel,
                ErrorModel,
            >(class_model(k)),
            Err(e) => spec_lower_class_definition(*cd) == Err::<ClassModel, ErrorModel>(
                error_model(e),
            ),
        },
    decreases *cd, 2int,
{
    proof {
        reveal_with_fuel(spec_lower_class_definition, 1);
    }
    match &cd.specifier {
        SynClassSpecifier::Standard { name, composition } => {
            proof {
                assert(decreases_to!(*cd => cd.specifier));
                assert(decreases_to!(cd.specifier => *composition));
            }
            let comp = match lower_composition(composition) {
                Ok(m) => m,
                Err(err) => {
                    return Err(err);
                },
            };
            let ghost cmod = composition_model(comp);
            let out = ClassDefinition {
                name: name.duplicate(),
                encapsulated: cd.encapsulated,
                classes: comp.classes,
                components: comp.components,
                extends: comp.extends,
                imports: comp.imports,
                equations: comp.equations,
                initial_equations: comp.initial_equations,
                algorithms: comp.algorithms,
                initial_algorithms: comp.initial_algorithms,
            };
            proof {
                match &out.classes {
                    ClassMap::Empty => {
                        assert(class_entries_model(out.classes.key_seq(), out.classes.val_seq())
                            =~= Seq::<(Seq<char>, ClassModel)>::empty());
                    },
                    ClassMap::Present(_) => {},
                }
                assert(class_model(out) == (ClassModel {
                    name: name@,
                    encapsulated: cd.encapsulated,
                    classes: cmod.classes,
                    components: cmod.components,
                    extends: cmod.extends,
                    imports: cmod.imports,
                    equations: cmod.equations,
                    initial_equations: cmod.initial_equations,
                    algorithms: cmod.algorithms,
                    initial_algorithms: cmod.initial_algorithms,
                }));
                assert(class_wf(out));
            }
            Ok(out)
        },
        SynClassSpecifier::ExtendsSpecifier(t) => Err(
            Error::Unimplemented {
                construct: "extends class specifier".to_owned(),
                location: t.location.duplicate(),
            },
        ),
        SynClassSpecifier::Der(t) => Err(
            Error::Unimplemented {
                construct: "der class specifier".to_owned(),
                location: t.location.duplicate(),
            },
        ),
        SynClassSpecifier::EnumSpecifier(t) => Err(
            Error::Unimplemented {
                construct: "enumeration class specifier".to_owned(),
                location: t.location.duplicate(),
            },
        ),
        SynClassSpecifier::TypeSpecifier(t) => Err(
            Error::Unimplemented {
                construct: "type class specifier".to_owned(),
                location: t.location.duplicate(),
            },
        ),
    }
}

/// Lowers a stored definition: the top-level classes keyed by name in
/// source order, and the optional `within` clause.
#[verifier::rlimit(100)]
#[verifier::spinoff_prover]
pub fn lower_stored_definition(sd: &SynStoredDefinition) -> (r: Result<StoredDefinition, Error>)
    ensures
        match r {
            Ok(d) => sd_wf(d) && spec_lower_stored_definition(*sd) == Ok::<
                StoredDefinitionModel,
                ErrorModel,
            >(sd_model(d)),
            Err(e) => spec_lower_stored_definition(*sd) == Err::<
                StoredDefinitionModel,
                ErrorModel,
            >(error_model(e)),
        },
{
    proof {
        reveal_with_fuel(spec_lower_stored_definition, 1);
        reveal_with_fuel(spec_lower_class_list, 1);
    }
    let mut classes: OrderedMap<ClassDefinition> = OrderedMap::new();
    let n = sd.classes.len();
    let mut ci: usize = 0;
    proof {
        assert(class_entries_model(classes.key_seq(), classes.val_seq()) =~= Seq::<
            (Seq<char>, ClassModel),
        >::empty());
        assert(sd.classes@.subrange(0, n as int) =~= sd.classes@);
        lemma_classes_deep_wf(classes.val_seq());
    }
    while ci < n
        invariant
            n == sd.classes@.len(),
            0 <= ci <= n,
            classes.wf(),
            classes_deep_wf(classes.val_seq()),
            spec_lower_class_list(
                sd.classes@.subrange(ci as int, n as int),
                class_entries_model(classes.key_seq(), classes.val_seq()),
            ) == spec_lower_class_list(sd.classes@, Seq::empty()),
        decreases n - ci,
    {
        let ghost crest = sd.classes@.subrange(ci as int, n as int);
        proof {
            reveal_with_fuel(spec_lower_class_list, 1);
            assert(crest[0] == sd.classes@[ci as int]);
            assert(crest.subrange(1, crest.len() as int) =~= sd.classes@.subrange(
                ci + 1,
                n as int,
            ));
        }
        let km = match lower_class_definition(&sd.classes[ci]) {
            Ok(k) => k,
            Err(err) => {
                proof {
                    reveal_with_fuel(spec_lower_stored_definition, 1);
                }
                return Err(err);
            },
        };
        let key = km.name.text.clone();
        let ghost old_entries = class_entries_model(classes.key_seq(), classes.val_seq());
        proof {
            lemma_class_entries_model(classes.key_seq(), classes.val_seq());
            lemma_klass_vs_keys(classes.key_seq(), old_entries, key@);
            lemma_seq_index_of(classes.key_seq(), key@);
            lemma_klass_index_of(old_entries, key@);
            lemma_classes_deep_wf(classes.val_seq());
        }
        let ghost km_model = class_model(km);
        classes.insert(key, km);
        proof {
            lemma_class_entries_model(classes.key_seq(), classes.val_seq());
            assert(class_entries_model(classes.key_seq(), classes.val_seq()) =~= klass_insert(
                old_entries,
                km_model.name.text,
                km_model,
            ));
            lemma_classes_deep_wf(classes.val_seq());
        }
        ci += 1;
    }
    proof {
        assert(sd.classes@.subrange(n as int, n as int) =~= Seq::<SynClassDefinition>::empty());
    }
    let within = match &sd.within {
        Some(nm) => Some(lower_name(nm)),
        None => None,
    };
    let out = StoredDefinition { within, classes };
    proof {
        assert(sd_model(out) == (StoredDefinitionModel {
            within: match sd.within {
                Some(nm) => Some(spec_lower_name(nm)),
                None => None,
            },
            classes: class_entries_model(out.classes.key_seq(), out.classes.val_seq()),
        }));
    }
    Ok(out)
}

impl ModelicaGrammar {
    /// Receives one lowered stored definition, as the external parser's
    /// callback does: on success the result is kept in `modelica`, and
    /// an error leaves the adapter unchanged.
    pub fn stored_definition(&mut self, sd: &SynStoredDefinition) -> (r: Result<(), Error>)
        ensures
            match r {
                Ok(_) => final(self).modelica is Some && sd_wf(final(self).modelica->0)
                    && spec_lower_stored_definition(*sd) == Ok::<
                    StoredDefinitionModel,
                    ErrorModel,
                >(sd_model(final(self).modelica->0)),
                Err(e) => spec_lower_stored_definition(*sd) == Err::<
                    StoredDefinitionModel,
                    ErrorModel,
                >(error_model(e)) && final(self).modelica == old(self).modelica,
            },
    {
        match lower_stored_definition(sd) {
            Ok(d) => {
                self.modelica = Some(d);
                Ok(())
            },
            Err(e) => Err(e),
        }
    }
}

/// Lowers an equation section.
#[verifier::spinoff_prover]
pub fn lower_equation_section(es: &SynEquationSection) -> (r: Result<EquationSection, Error>)
    ensures
        match r {
            Ok(m) => m.initial == es.initial && spec_lower_eqs(es.equations@) == Ok::<
                Seq<EquationModel>,
                ErrorModel,
            >(eqs_model(m.equations@)),
            Err(e) => spec_lower_eqs(es.equations@) == Err::<Seq<EquationModel>, ErrorModel>(
                error_model(e),
            ),
        },
{
    match lower_eqs(&es.equations) {
        Ok(equations) => Ok(EquationSection { initial: es.initial, equations }),
        Err(err) => Err(err),
    }
}

/// Lowers an algorithm section.
#[verifier::spinoff_prover]
pub fn lower_algorithm_section(als: &SynAlgorithmSection) -> (r: Result<AlgorithmSection, Error>)
    ensures
        match r {
            Ok(m) => m.initial == als.initial && spec_lower_stmts(als.statements@) == Ok::<
                Seq<StatementModel>,
                ErrorModel,
            >(stmts_model(m.statements@)),
            Err(e) => spec_lower_stmts(als.statements@) == Err::<
                Seq<StatementModel>,
                ErrorModel,
            >(error_model(e)),
        },
{
    match lower_stmts(&als.statements) {
        Ok(statements) => Ok(AlgorithmSection { initial: als.initial, statements }),
        Err(err) => Err(err),
    }
}

} // verus!
