//! Flattening and partitioning tests on hand-built models.

use rumoca::ast::{
    Causality, ClassDefinition, ClassMap, Component, ComponentRefPart, ComponentReference,
    Connection, Equation, EquationBlock, Expression, Name, OpBinary, OpUnary, StoredDefinition,
    Subscript, TerminalType, Token, Variability,
};
use rumoca::dae::partition;
use rumoca::error::Error;
use rumoca::flatten::flatten;
use rumoca::omap::OrderedMap;

fn tk(text: &str) -> Token {
    Token {
        text: text.to_owned(),
        location: rumoca::ast::Location {
            start_line: 1,
            start_column: 1,
            end_line: 1,
            end_column: 1,
            start: 0,
            end: 0,
            file_name: String::new(),
        },
        token_number: 0,
        token_type: 0,
    }
}

fn var(name: &str) -> Expression {
    Expression::ComponentReference(ComponentReference {
        local: false,
        parts: vec![ComponentRefPart { ident: tk(name), subs: None }],
    })
}

fn der_of(name: &str) -> Expression {
    Expression::FunctionCall {
        comp: ComponentReference {
            local: false,
            parts: vec![ComponentRefPart { ident: tk("der"), subs: None }],
        },
        args: vec![var(name)],
    }
}

fn int_lit(text: &str) -> Expression {
    Expression::Terminal { terminal_type: TerminalType::UnsignedInteger, token: tk(text) }
}

fn real_component(name: &str, variability: Variability) -> Component {
    Component {
        name: name.to_owned(),
        type_specifier: Name { name: vec![tk("Real")] },
        variability,
        causality: Causality::Empty,
        connection: Connection::Empty,
        description: Vec::new(),
        start: Expression::Empty,
    }
}

fn class_of(name: &str, comps: Vec<Component>, eqs: Vec<Equation>) -> ClassDefinition {
    let mut components: OrderedMap<Component> = OrderedMap::new();
    for c in comps {
        let key = c.name.clone();
        components.insert(key, c);
    }
    ClassDefinition {
        name: tk(name),
        encapsulated: false,
        classes: ClassMap::new(),
        components,
        extends: Vec::new(),
        imports: Vec::new(),
        equations: eqs,
        initial_equations: Vec::new(),
        algorithms: Vec::new(),
        initial_algorithms: Vec::new(),
    }
}

fn stored(classes: Vec<ClassDefinition>) -> StoredDefinition {
    let mut map: OrderedMap<ClassDefinition> = OrderedMap::new();
    for c in classes {
        let key = c.name.text.clone();
        map.insert(key, c);
    }
    StoredDefinition { within: None, classes: map }
}

/// Flattening a two-class model inlines the member class: `Top` with a
/// component `sub` of class `A` (with `a = 1`) yields `sub_a` and
/// `Simple(sub_a, 1)`.
#[test]
fn flatten_two_class_model() {
    let a = class_of(
        "A",
        vec![real_component("a", Variability::Empty)],
        vec![Equation::Simple { lhs: var("a"), rhs: int_lit("1") }],
    );
    let mut top = class_of("Top", Vec::new(), Vec::new());
    top.components.insert(
        "sub".to_owned(),
        Component {
            name: "sub".to_owned(),
            type_specifier: Name { name: vec![tk("A")] },
            variability: Variability::Empty,
            causality: Causality::Empty,
            connection: Connection::Empty,
            description: Vec::new(),
            start: Expression::Empty,
        },
    );
    let def = stored(vec![a, top]);
    let flat = flatten(&def, "Top").unwrap();
    assert_eq!(flat.name.text, "Top");
    assert_eq!(flat.components.keys, vec!["sub_a".to_owned()]);
    assert_eq!(flat.components.vals[0].name, "sub_a");
    assert_eq!(flat.equations.len(), 1);
    match &flat.equations[0] {
        Equation::Simple { lhs, rhs } => {
            match lhs {
                Expression::ComponentReference(c) => {
                    assert_eq!(c.parts.len(), 1);
                    assert_eq!(c.parts[0].ident.text, "sub_a");
                }
                other => panic!("expected reference, got {:?}", other),
            }
            match rhs {
                Expression::Terminal { token, .. } => assert_eq!(token.text, "1"),
                other => panic!("expected literal, got {:?}", other),
            }
        }
        other => panic!("expected simple equation, got {:?}", other),
    }
}

/// A dotted path is mangled with underscores.
#[test]
fn flatten_mangles_nested_path() {
    let inner = class_of("B", vec![real_component("v", Variability::Empty)], Vec::new());
    let mut outer = class_of("P", Vec::new(), Vec::new());
    let mut nested = ClassMap::new();
    nested.insert("B".to_owned(), inner);
    outer.classes = nested;
    let def = stored(vec![outer]);
    let flat = flatten(&def, "P.B").unwrap();
    assert_eq!(flat.name.text, "P_B");
    assert_eq!(flat.components.keys, vec!["v".to_owned()]);
}

/// An unknown class name in the target path is `ClassNotFound`.
#[test]
fn flatten_unknown_class() {
    let def = stored(vec![class_of("M", Vec::new(), Vec::new())]);
    match flatten(&def, "Missing") {
        Err(Error::ClassNotFound { path }) => assert_eq!(path, "Missing"),
        other => panic!("expected class-not-found, got {:?}", other),
    }
}

/// Extends clauses copy the base class's components and equations.
#[test]
fn flatten_applies_extends() {
    let base = class_of(
        "Base",
        vec![real_component("b", Variability::Empty)],
        vec![Equation::Simple { lhs: var("b"), rhs: int_lit("2") }],
    );
    let mut child = class_of("Child", Vec::new(), Vec::new());
    child.extends.push(rumoca::ast::Extend { comp: Name { name: vec![tk("Base")] } });
    let def = stored(vec![base, child]);
    let flat = flatten(&def, "Child").unwrap();
    assert_eq!(flat.components.keys, vec!["b".to_owned()]);
    assert_eq!(flat.equations.len(), 1);
}

/// `der(x) = -x` puts `x` in `x`, a `der_x` companion in `x_dot`, and
/// the equation in `fx`; `z`, `m`, `c` and `relation` stay empty.
#[test]
fn partition_derivative_state() {
    let class = class_of(
        "M",
        vec![real_component("x", Variability::Empty)],
        vec![Equation::Simple {
            lhs: der_of("x"),
            rhs: Expression::Unary { op: OpUnary::Minus(tk("-")), rhs: Box::new(var("x")) },
        }],
    );
    let d = partition(&class).unwrap();
    assert_eq!(d.x.len(), 1);
    assert_eq!(d.x[0].name, "x");
    assert_eq!(d.x_dot.len(), 1);
    assert_eq!(d.x_dot[0].name, "der_x");
    assert_eq!(d.fx.len(), 1);
    assert!(d.z.is_empty());
    assert!(d.m.is_empty());
    assert!(d.c.is_empty());
    assert!(d.relation.is_empty());
}

/// `parameter Real k` and algebraic `Real y` with `y = k * 2`.
#[test]
fn partition_parameter_and_algebraic() {
    let class = class_of(
        "M",
        vec![
            real_component("k", Variability::Parameter(tk("parameter"))),
            real_component("y", Variability::Empty),
        ],
        vec![Equation::Simple {
            lhs: var("y"),
            rhs: Expression::Binary {
                op: OpBinary::Mul(tk("*")),
                lhs: Box::new(var("k")),
                rhs: Box::new(int_lit("2")),
            },
        }],
    );
    let d = partition(&class).unwrap();
    assert_eq!(d.p.len(), 1);
    assert_eq!(d.p[0].name, "k");
    assert_eq!(d.y.len(), 1);
    assert_eq!(d.y[0].name, "y");
    assert_eq!(d.fx.len(), 1);
}

/// `when time > 1 then z = 2; end when;` with `discrete Real z`: the
/// condition lands in `c` and `relation`, the body in `fz` and in the
/// first callback, and `pre_z` shadows `z`.
#[test]
fn partition_when_discrete() {
    let cond = Expression::Binary {
        op: OpBinary::Gt(tk(">")),
        lhs: Box::new(var("time")),
        rhs: Box::new(int_lit("1")),
    };
    let class = class_of(
        "M",
        vec![real_component("z", Variability::Discrete(tk("discrete")))],
        vec![Equation::When(vec![EquationBlock {
            cond,
            eqs: vec![Equation::Simple { lhs: var("z"), rhs: int_lit("2") }],
        }])],
    );
    let d = partition(&class).unwrap();
    assert_eq!(d.z.len(), 1);
    assert_eq!(d.z[0].name, "z");
    assert_eq!(d.pre_z.len(), 1);
    assert_eq!(d.pre_z[0].name, "pre_z");
    assert_eq!(d.c.len(), 1);
    assert_eq!(d.relation.len(), 1);
    assert_eq!(d.fz.len(), 1);
    assert_eq!(d.fc.len(), 1);
    assert_eq!(d.fc[0].len(), 1);
    assert!(d.fm.is_empty());
    assert!(d.fx.is_empty());
}

/// An equation referring to an unclassified identifier is a dangling
/// reference.
#[test]
fn partition_dangling_reference() {
    let class = class_of(
        "M",
        vec![real_component("y", Variability::Empty)],
        vec![Equation::Simple { lhs: var("y"), rhs: var("ghostly") }],
    );
    match partition(&class) {
        Err(Error::DanglingReference { name }) => assert_eq!(name, "ghostly"),
        other => panic!("expected dangling reference, got {:?}", other),
    }
}

/// Constants go to `cp`, inputs to `u`, Integer discretes to `m`.
#[test]
fn partition_other_buckets() {
    let mut input_comp = real_component("uin", Variability::Empty);
    input_comp.causality = Causality::Input(tk("input"));
    let mut int_comp = real_component("n", Variability::Discrete(tk("discrete")));
    int_comp.type_specifier = Name { name: vec![tk("Integer")] };
    let class = class_of(
        "M",
        vec![
            real_component("cfix", Variability::Constant(tk("constant"))),
            input_comp,
            int_comp,
        ],
        Vec::new(),
    );
    let d = partition(&class).unwrap();
    assert_eq!(d.cp.len(), 1);
    assert_eq!(d.cp[0].name, "cfix");
    assert_eq!(d.u.len(), 1);
    assert_eq!(d.u[0].name, "uin");
    assert_eq!(d.m.len(), 1);
    assert_eq!(d.m[0].name, "n");
}

/// The ordered map keeps insertion order, overwrites in place, and
/// swap-removes.
#[test]
fn ordered_map_semantics() {
    let mut m: OrderedMap<u64> = OrderedMap::new();
    m.insert("a".to_owned(), 1);
    m.insert("b".to_owned(), 2);
    m.insert("c".to_owned(), 3);
    m.insert("a".to_owned(), 9);
    assert_eq!(m.keys, vec!["a".to_owned(), "b".to_owned(), "c".to_owned()]);
    assert_eq!(m.vals, vec![9, 2, 3]);
    assert_eq!(m.get(&"b".to_owned()), Some(&2));
    let removed = m.swap_remove(&"a".to_owned());
    assert_eq!(removed, Some(9));
    assert_eq!(m.keys, vec!["c".to_owned(), "b".to_owned()]);
}

/// Splitting and joining dotted paths.
#[test]
fn split_and_join_paths() {
    let parts = rumoca::text::split_path("a.b.c", '.');
    assert_eq!(parts, vec!["a".to_owned(), "b".to_owned(), "c".to_owned()]);
    let joined = rumoca::text::join_path(&parts, "_");
    assert_eq!(joined, "a_b_c");
    let single = rumoca::text::split_path("top", '.');
    assert_eq!(single, vec!["top".to_owned()]);
}

/// The scope pusher prefixes unreserved references and leaves the
/// reserved ones alone.
#[test]
fn scope_pusher_prefixes() {
    let pusher = rumoca::visitor::ScopePusher {
        global_symbols: vec!["time".to_owned(), "der".to_owned()],
        symbols: Vec::new(),
        comp: "sub".to_owned(),
    };
    let pushed = pusher.apply_expr(&var("a"));
    match pushed {
        Expression::ComponentReference(c) => {
            assert_eq!(c.parts.len(), 2);
            assert_eq!(c.parts[0].ident.text, "sub");
            assert_eq!(c.parts[1].ident.text, "a");
        }
        other => panic!("expected reference, got {:?}", other),
    }
    let kept = pusher.apply_expr(&var("time"));
    match kept {
        Expression::ComponentReference(c) => assert_eq!(c.parts.len(), 1),
        other => panic!("expected reference, got {:?}", other),
    }
}

/// The sub-component namer collapses `sub.a` into `sub_a`.
#[test]
fn sub_comp_namer_collapses() {
    let namer = rumoca::visitor::SubCompNamer { comp: "sub".to_owned() };
    let dotted = Expression::ComponentReference(ComponentReference {
        local: false,
        parts: vec![
            ComponentRefPart { ident: tk("sub"), subs: None },
            ComponentRefPart { ident: tk("a"), subs: None },
        ],
    });
    match namer.apply_expr(&dotted) {
        Expression::ComponentReference(c) => {
            assert_eq!(c.parts.len(), 1);
            assert_eq!(c.parts[0].ident.text, "sub_a");
        }
        other => panic!("expected reference, got {:?}", other),
    }
}

/// A deep copy equals its original.
#[test]
fn duplicate_preserves_value() {
    let e = Expression::Binary {
        op: OpBinary::Add(tk("+")),
        lhs: Box::new(var("a")),
        rhs: Box::new(Expression::FunctionCall {
            comp: ComponentReference {
                local: false,
                parts: vec![ComponentRefPart {
                    ident: tk("f"),
                    subs: Some(vec![Subscript::Range { token: tk(":") }]),
                }],
            },
            args: vec![var("b")],
        }),
    };
    assert_eq!(e.duplicate(), e);
}

/// A free identifier must name exactly one classified variable: beside a
/// differentiated `x`, a component literally named `der_x` lands in `y`
/// while the synthesized derivative also claims `der_x`, so an equation
/// referring to `der_x` is ambiguous and rejected.
#[test]
fn partition_ambiguous_name() {
    let class = class_of(
        "M",
        vec![
            real_component("x", Variability::Empty),
            real_component("der_x", Variability::Empty),
        ],
        vec![Equation::Simple { lhs: der_of("x"), rhs: var("der_x") }],
    );
    match partition(&class) {
        Err(Error::DanglingReference { name }) => assert_eq!(name, "der_x"),
        other => panic!("expected dangling reference, got {:?}", other),
    }
}

/// The synthesized time variable counts as a bucket of its own, so an
/// equation referring to `time` resolves even when no component named
/// `time` is declared.
#[test]
fn partition_time_always_resolves() {
    let class = class_of(
        "M",
        vec![real_component("y", Variability::Empty)],
        vec![Equation::Simple { lhs: var("y"), rhs: var("time") }],
    );
    let d = partition(&class).unwrap();
    assert_eq!(d.t.name, "time");
    assert_eq!(d.fx.len(), 1);
}
