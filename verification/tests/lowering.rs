//! Lowering tests: operator precedence and association, rejected
//! constructs, names, descriptions, component defaults, and the whole
//! pipeline from a grammar-shaped tree to a DAE.

use rumoca::ast::{Expression, OpBinary, OpUnary, Token, Variability};
use rumoca::error::Error;
use rumoca::modelica_grammar::{
    lower_arithmetic_expression, lower_component_clause, lower_description, lower_expression,
    lower_factor, lower_logical_expression, lower_name, lower_relation, lower_simple_expression,
    lower_stored_definition, ModelicaGrammar,
};
use rumoca::syntax::{
    SynAddOp, SynAddTerm, SynArithmeticExpression, SynClassDefinition, SynClassSpecifier,
    SynComponentClause, SynComponentDeclaration, SynComponentReference, SynComposition,
    SynCompositionSection, SynElement, SynElementList, SynEquation, SynEquationSection,
    SynExpression, SynFactor, SynFunctionArgument, SynFunctionCallArgs, SynLogicalExpression,
    SynLogicalFactor, SynLogicalTerm, SynModification, SynMulFactor, SynMulOp, SynName,
    SynPrimary, SynRelOp, SynRelation, SynRelationTail, SynSimpleExpression,
    SynStoredDefinition, SynTerm,
};

fn tok(text: &str) -> Token {
    Token {
        text: text.to_owned(),
        location: rumoca::ast::Location {
            start_line: 1,
            start_column: 1,
            end_line: 1,
            end_column: 1,
            start: 0,
            end: 0,
            file_name: String::new(),
        },
        token_number: 0,
        token_type: 0,
    }
}

fn ident_primary(name: &str) -> SynPrimary {
    SynPrimary::Component {
        comp: SynComponentReference { local: false, first: tok(name), rest: Vec::new() },
        args: None,
    }
}

fn factor(name: &str) -> SynFactor {
    SynFactor { base: ident_primary(name), exponents: Vec::new() }
}

fn term(name: &str) -> SynTerm {
    SynTerm { first: factor(name), rest: Vec::new() }
}

fn arith_of_term(t: SynTerm) -> SynArithmeticExpression {
    SynArithmeticExpression { sign: None, first: t, rest: Vec::new() }
}

fn logical_factor(name: &str) -> SynLogicalFactor {
    SynLogicalFactor {
        not_token: None,
        relation: SynRelation { lhs: arith_of_term(term(name)), tail: None },
    }
}

fn logical_expr(name: &str) -> SynLogicalExpression {
    SynLogicalExpression {
        first: SynLogicalTerm { first: logical_factor(name), rest: Vec::new() },
        rest: Vec::new(),
    }
}

fn simple_of_arith(a: SynArithmeticExpression) -> SynSimpleExpression {
    SynSimpleExpression {
        first: SynLogicalExpression {
            first: SynLogicalTerm {
                first: SynLogicalFactor {
                    not_token: None,
                    relation: SynRelation { lhs: a, tail: None },
                },
                rest: Vec::new(),
            },
            rest: Vec::new(),
        },
        range: None,
    }
}

fn expr_of_arith(a: SynArithmeticExpression) -> SynExpression {
    SynExpression::Simple(Box::new(simple_of_arith(a)))
}

fn ident_name(e: &Expression) -> String {
    match e {
        Expression::ComponentReference(c) => c.parts[0].ident.text.clone(),
        _ => panic!("not a reference"),
    }
}

/// `a + b * c` lowers to `Binary(+, a, Binary(*, b, c))`.
#[test]
fn precedence_add_mul() {
    let ast = SynArithmeticExpression {
        sign: None,
        first: term("a"),
        rest: vec![SynAddTerm {
            op: SynAddOp::Plus(tok("+")),
            term: SynTerm {
                first: factor("b"),
                rest: vec![SynMulFactor { op: SynMulOp::Star(tok("*")), factor: factor("c") }],
            },
        }],
    };
    let e = lower_arithmetic_expression(&ast).unwrap();
    match e {
        Expression::Binary { op: OpBinary::Add(_), lhs, rhs } => {
            assert_eq!(ident_name(&lhs), "a");
            match *rhs {
                Expression::Binary { op: OpBinary::Mul(_), lhs: bl, rhs: br } => {
                    assert_eq!(ident_name(&bl), "b");
                    assert_eq!(ident_name(&br), "c");
                }
                other => panic!("expected multiplication, got {:?}", other),
            }
        }
        other => panic!("expected addition, got {:?}", other),
    }
}

/// `a * b + c` lowers to `Binary(+, Binary(*, a, b), c)`.
#[test]
fn precedence_mul_add() {
    let ast = SynArithmeticExpression {
        sign: None,
        first: SynTerm {
            first: factor("a"),
            rest: vec![SynMulFactor { op: SynMulOp::Star(tok("*")), factor: factor("b") }],
        },
        rest: vec![SynAddTerm { op: SynAddOp::Plus(tok("+")), term: term("c") }],
    };
    let e = lower_arithmetic_expression(&ast).unwrap();
    match e {
        Expression::Binary { op: OpBinary::Add(_), lhs, rhs } => {
            assert_eq!(ident_name(&rhs), "c");
            match *lhs {
                Expression::Binary { op: OpBinary::Mul(_), lhs: bl, rhs: br } => {
                    assert_eq!(ident_name(&bl), "a");
                    assert_eq!(ident_name(&br), "b");
                }
                other => panic!("expected multiplication, got {:?}", other),
            }
        }
        other => panic!("expected addition, got {:?}", other),
    }
}

/// `-a + b` lowers to `Binary(+, Unary(-, a), b)`.
#[test]
fn precedence_sign_first_term() {
    let ast = SynArithmeticExpression {
        sign: Some(SynAddOp::Minus(tok("-"))),
        first: term("a"),
        rest: vec![SynAddTerm { op: SynAddOp::Plus(tok("+")), term: term("b") }],
    };
    let e = lower_arithmetic_expression(&ast).unwrap();
    match e {
        Expression::Binary { op: OpBinary::Add(_), lhs, rhs } => {
            assert_eq!(ident_name(&rhs), "b");
            match *lhs {
                Expression::Unary { op: OpUnary::Minus(_), rhs: ur } => {
                    assert_eq!(ident_name(&ur), "a");
                }
                other => panic!("expected unary minus, got {:?}", other),
            }
        }
        other => panic!("expected addition, got {:?}", other),
    }
}

/// `a and b or c` lowers to `Binary(or, Binary(and, a, b), c)`.
#[test]
fn precedence_and_or() {
    let ast = SynLogicalExpression {
        first: SynLogicalTerm {
            first: logical_factor("a"),
            rest: vec![logical_factor("b")],
        },
        rest: vec![SynLogicalTerm { first: logical_factor("c"), rest: Vec::new() }],
    };
    let e = lower_logical_expression(&ast).unwrap();
    match e {
        Expression::Binary { op: OpBinary::Or(_), lhs, rhs } => {
            assert_eq!(ident_name(&rhs), "c");
            match *lhs {
                Expression::Binary { op: OpBinary::And(_), lhs: bl, rhs: br } => {
                    assert_eq!(ident_name(&bl), "a");
                    assert_eq!(ident_name(&br), "b");
                }
                other => panic!("expected and, got {:?}", other),
            }
        }
        other => panic!("expected or, got {:?}", other),
    }
}

/// `a == b` lowers to a single non-chained relation.
#[test]
fn relation_non_chained() {
    let ast = SynRelation {
        lhs: arith_of_term(term("a")),
        tail: Some(SynRelationTail {
            op: SynRelOp::EquEqu(tok("==")),
            rhs: arith_of_term(term("b")),
        }),
    };
    let e = lower_relation(&ast).unwrap();
    match e {
        Expression::Binary { op: OpBinary::Eq(_), lhs, rhs } => {
            assert_eq!(ident_name(&lhs), "a");
            assert_eq!(ident_name(&rhs), "b");
        }
        other => panic!("expected equality, got {:?}", other),
    }
}

/// `a ^ b ^ c` is malformed input: `^` is non-associative.
#[test]
fn exponent_chain_rejected() {
    let ast = SynFactor {
        base: ident_primary("a"),
        exponents: vec![ident_primary("b"), ident_primary("c")],
    };
    match lower_factor(&ast) {
        Err(Error::MalformedInput { .. }) => {}
        other => panic!("expected malformed input, got {:?}", other),
    }
}

/// `a ^ b` lowers to a single exponentiation.
#[test]
fn single_exponent_accepted() {
    let ast = SynFactor { base: ident_primary("a"), exponents: vec![ident_primary("b")] };
    match lower_factor(&ast) {
        Ok(Expression::Binary { op: OpBinary::Exp(_), .. }) => {}
        other => panic!("expected exponentiation, got {:?}", other),
    }
}

/// An if-expression is recognized but unsupported; the supported simple
/// form lowers.
#[test]
fn if_expression_unimplemented() {
    let ok = SynSimpleExpression { first: logical_expr("a"), range: None };
    assert!(lower_simple_expression(&ok).is_ok());
    match lower_expression(&SynExpression::If(tok("if"))) {
        Err(Error::Unimplemented { construct, .. }) => assert_eq!(construct, "if expression"),
        other => panic!("expected unimplemented, got {:?}", other),
    }
}

/// A range `a : b` lowers to a range expression without a step.
#[test]
fn range_without_step() {
    let ast = SynSimpleExpression {
        first: logical_expr("a"),
        range: Some(rumoca::syntax::SynRangeTail {
            step_or_end: logical_expr("b"),
            end: None,
        }),
    };
    match lower_simple_expression(&ast).unwrap() {
        Expression::Range { step: None, .. } => {}
        other => panic!("expected range, got {:?}", other),
    }
}

/// A dotted name keeps its identifier tokens in order.
#[test]
fn name_tokens_in_order() {
    let n = SynName { first: tok("a"), rest: vec![tok("b"), tok("c")] };
    let lowered = lower_name(&n);
    assert_eq!(lowered.name.len(), 3);
    assert_eq!(lowered.text(), "a.b.c");
}

/// Description strings lose their outer quotes.
#[test]
fn description_quotes_stripped() {
    let toks = vec![tok("\"a body\""), tok("\"x\"")];
    let lowered = lower_description(&toks);
    assert_eq!(lowered.tokens.len(), 2);
    assert_eq!(lowered.tokens[0].text, "a body");
    assert_eq!(lowered.tokens[1].text, "x");
}

fn real_clause(names: &[&str], variability: Variability) -> SynComponentClause {
    SynComponentClause {
        connection: rumoca::ast::Connection::Empty,
        variability,
        causality: rumoca::ast::Causality::Empty,
        type_specifier: SynName { first: tok("Real"), rest: Vec::new() },
        components: names
            .iter()
            .map(|n| SynComponentDeclaration {
                ident: tok(n),
                modification: None,
                description: Vec::new(),
            })
            .collect(),
    }
}

/// One component per declared identifier, with the type's default start.
#[test]
fn component_clause_defaults() {
    let clause = real_clause(&["x", "y"], Variability::Empty);
    let comps = lower_component_clause(&clause).unwrap();
    assert_eq!(comps.len(), 2);
    assert_eq!(comps[0].name, "x");
    assert_eq!(comps[1].name, "y");
    assert_eq!(comps[0].type_specifier.text(), "Real");
    match &comps[0].start {
        Expression::Terminal { token, .. } => assert_eq!(token.text, "0.0"),
        other => panic!("expected default start, got {:?}", other),
    }
}

/// A `= expr` modification becomes the start expression; a `Bool`
/// default is `false`.
#[test]
fn component_clause_modification_and_bool() {
    let mut clause = real_clause(&["k"], Variability::Parameter(tok("parameter")));
    clause.components[0].modification = Some(SynModification::Expression(expr_of_arith(
        SynArithmeticExpression {
            sign: None,
            first: SynTerm {
                first: SynFactor {
                    base: SynPrimary::UnsignedReal(tok("2.0")),
                    exponents: Vec::new(),
                },
                rest: Vec::new(),
            },
            rest: Vec::new(),
        },
    )));
    let comps = lower_component_clause(&clause).unwrap();
    match &comps[0].start {
        Expression::Terminal { token, .. } => assert_eq!(token.text, "2.0"),
        other => panic!("expected start literal, got {:?}", other),
    }

    let mut bool_clause = real_clause(&["b"], Variability::Discrete(tok("discrete")));
    bool_clause.type_specifier = SynName { first: tok("Bool"), rest: Vec::new() };
    let comps = lower_component_clause(&bool_clause).unwrap();
    match &comps[0].start {
        Expression::Terminal { token, .. } => assert_eq!(token.text, "false"),
        other => panic!("expected default start, got {:?}", other),
    }
}

fn der_call(name: &str) -> SynPrimary {
    SynPrimary::GlobalCall {
        keyword: tok("der"),
        args: SynFunctionCallArgs {
            args: vec![SynFunctionArgument::Expression(Box::new(expr_of_arith(arith_of_term(
                term(name),
            ))))],
        },
    }
}

fn model_class(name: &str, clause: SynComponentClause, eqs: Vec<SynEquation>) -> SynClassDefinition {
    SynClassDefinition {
        encapsulated: false,
        specifier: SynClassSpecifier::Standard {
            name: tok(name),
            composition: SynComposition {
                element_list: SynElementList {
                    elements: vec![SynElement::ComponentClause(clause)],
                },
                sections: vec![SynCompositionSection::EquationSection(SynEquationSection {
                    initial: false,
                    equations: eqs,
                })],
            },
        },
    }
}

/// The whole pipeline: `model M Real x; equation der(x) = -x; end M;`
/// lowers, flattens and partitions into `x = [x]`, `x_dot = [der_x]`,
/// `fx` holding the one equation.
#[test]
fn pipeline_end_to_end() {
    let der_eq = SynEquation::Simple {
        lhs: simple_of_arith(SynArithmeticExpression {
            sign: None,
            first: SynTerm {
                first: SynFactor { base: der_call("x"), exponents: Vec::new() },
                rest: Vec::new(),
            },
            rest: Vec::new(),
        }),
        rhs: Some(expr_of_arith(SynArithmeticExpression {
            sign: Some(SynAddOp::Minus(tok("-"))),
            first: term("x"),
            rest: Vec::new(),
        })),
    };
    let sd = SynStoredDefinition {
        within: None,
        classes: vec![model_class("M", real_clause(&["x"], Variability::Empty), vec![der_eq])],
    };
    let mut grammar = ModelicaGrammar::new();
    grammar.stored_definition(&sd).unwrap();
    let def = grammar.modelica.as_ref().unwrap();
    let flat = rumoca::flatten::flatten(def, "M").unwrap();
    assert_eq!(flat.name.text, "M");
    assert_eq!(flat.components.keys, vec!["x".to_owned()]);
    let d = rumoca::dae::partition(&flat).unwrap();
    assert_eq!(d.x.len(), 1);
    assert_eq!(d.x[0].name, "x");
    assert_eq!(d.x_dot.len(), 1);
    assert_eq!(d.x_dot[0].name, "der_x");
    assert_eq!(d.fx.len(), 1);
    assert!(d.y.is_empty());
    assert!(d.z.is_empty());
}

/// Lowering keeps the top-level classes in source order, keyed by name.
#[test]
fn stored_definition_class_order() {
    let sd = SynStoredDefinition {
        within: Some(SynName { first: tok("pkg"), rest: Vec::new() }),
        classes: vec![
            model_class("A", real_clause(&["a"], Variability::Empty), Vec::new()),
            model_class("B", real_clause(&["b"], Variability::Empty), Vec::new()),
        ],
    };
    let d = lower_stored_definition(&sd).unwrap();
    assert_eq!(d.classes.keys, vec!["A".to_owned(), "B".to_owned()]);
    assert_eq!(d.within.as_ref().unwrap().text(), "pkg");
}

/// A rejected construct anywhere in a class rejects the whole stored
/// definition, with the construct named.
#[test]
fn stored_definition_rejects_unsupported() {
    let sd = SynStoredDefinition {
        within: None,
        classes: vec![SynClassDefinition {
            encapsulated: false,
            specifier: SynClassSpecifier::EnumSpecifier(tok("enumeration")),
        }],
    };
    match lower_stored_definition(&sd) {
        Err(Error::Unimplemented { construct, .. }) => {
            assert_eq!(construct, "enumeration class specifier");
        }
        other => panic!("expected unimplemented, got {:?}", other),
    }
    let mut grammar = ModelicaGrammar::new();
    assert!(grammar.stored_definition(&sd).is_err());
    assert!(grammar.modelica.is_none());
}
