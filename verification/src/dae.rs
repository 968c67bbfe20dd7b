//! Partitioning of a flattened class into a differential-algebraic-
//! equation system.
//!
//! The system's variables are classified per component, in declaration
//! order, by the first matching rule:
//!
//! 1. the component named `time` becomes `t`;
//! 2. `constant` variability goes to `cp`, `parameter` to `p`;
//! 3. `input` causality goes to `u`;
//! 4. a `Real` with `discrete` variability goes to `z`, with a shadow
//!    `pre_<name>` component appended to `pre_z`;
//! 5. a `Real` whose name appears under a `der(...)` call in the class's
//!    equations goes to `x`, with a `der_<name>` companion in `x_dot`;
//! 6. any other `Real` goes to `y`;
//! 7. everything else (`Integer`, `Bool`, and any remaining
//!    discrete-valued type) goes to `m`.
//!
//! Equations are routed in order: `when` blocks contribute their
//! condition to `c` (and to `relation` when it is relational), their body
//! to `fz` (or to `fm` for an assignment to an `m` variable), and the
//! body once more to `fc` as one callback entry; `connect` equations are
//! recognized and contribute nothing; every other equation goes to `fx`.
//!
//! After routing, every free identifier of `fx`, `fz` and `fm` (the
//! first identifier of each non-callee component reference) must name
//! exactly one variable across the classification buckets (`t` counts
//! as a bucket, so the time variable is always nameable); a name that
//! resolves to none, or to more than one, is the first violation and is
//! [`Error::DanglingReference`].

use vstd::prelude::*;
use crate::ast::{
    ClassDefinition, ClassModel, Component, ComponentModel, ComponentReferenceModel,
    ComponentRefPart, ComponentRefPartModel, ComponentReference, Equation, EquationBlock, EquationBlockModel,
    EquationModel, Expression, ExpressionModel, Name, Subscript, SubscriptModel, Token, TokenModel,
    VariabilityModel, CausalityModel, Variability, Causality, Connection, OpBinary, class_wf, class_model,
    comp_model, cref_model, eq_model, eqs_model, expr_model, join_texts, lemma_eqs_model,
    name_text, op_is_relational, tokens_model,
};
use crate::error::{Error, ErrorModel, error_model};
use crate::visitor::{contains_string, string_views, synthetic_token, synthetic_token_model};

verus! {

// ---------------------------------------------------------------------------
// The Dae record
// ---------------------------------------------------------------------------

/// The DAE system: variables classified into the nine buckets, equation
/// sections, and the extracted conditions and relations.
#[derive(Debug, PartialEq, Eq)]
pub struct Dae {
    /// Parameters.
    pub p: Vec<Component>,
    /// Constants.
    pub cp: Vec<Component>,
    /// The time variable.
    pub t: Component,
    /// Continuous states (differentiated `Real`s).
    pub x: Vec<Component>,
    /// Derivatives of the continuous states.
    pub x_dot: Vec<Component>,
    /// Algebraic variables.
    pub y: Vec<Component>,
    /// Inputs.
    pub u: Vec<Component>,
    /// The values of `z` immediately before the current event.
    pub pre_z: Vec<Component>,
    /// Discrete-time `Real` variables.
    pub z: Vec<Component>,
    /// Variables of discrete-valued types.
    pub m: Vec<Component>,
    /// Conditions of the `when` clauses.
    pub c: Vec<Expression>,
    /// The relational conditions among `c`.
    pub relation: Vec<Expression>,
    /// Continuous-time equations.
    pub fx: Vec<Equation>,
    /// Event update equations.
    pub fz: Vec<Equation>,
    /// Discrete update equations.
    pub fm: Vec<Equation>,
    /// Callback bodies, one per condition.
    pub fc: Vec<Vec<Equation>>,
}

/// Model of a [`Dae`].
pub struct DaeModel {
    pub p: Seq<ComponentModel>,
    pub cp: Seq<ComponentModel>,
    pub t: ComponentModel,
    pub x: Seq<ComponentModel>,
    pub x_dot: Seq<ComponentModel>,
    pub y: Seq<ComponentModel>,
    pub u: Seq<ComponentModel>,
    pub pre_z: Seq<ComponentModel>,
    pub z: Seq<ComponentModel>,
    pub m: Seq<ComponentModel>,
    pub c: Seq<ExpressionModel>,
    pub relation: Seq<ExpressionModel>,
    pub fx: Seq<EquationModel>,
    pub fz: Seq<EquationModel>,
    pub fm: Seq<EquationModel>,
    pub fc: Seq<Seq<EquationModel>>,
}

/// Model sequence of a component list.
pub open spec fn comps_model(s: Seq<Component>) -> Seq<ComponentModel> {
    Seq::new(s.len(), |i: int| comp_model(s[i]))
}

pub open spec fn dae_model(d: Dae) -> DaeModel {
    DaeModel {
        p: comps_model(d.p@),
        cp: comps_model(d.cp@),
        t: comp_model(d.t),
        x: comps_model(d.x@),
        x_dot: comps_model(d.x_dot@),
        y: comps_model(d.y@),
        u: comps_model(d.u@),
        pre_z: comps_model(d.pre_z@),
        z: comps_model(d.z@),
        m: comps_model(d.m@),
        c: crate::ast::exprs_model(d.c@),
        relation: crate::ast::exprs_model(d.relation@),
        fx: eqs_model(d.fx@),
        fz: eqs_model(d.fz@),
        fm: eqs_model(d.fm@),
        fc: Seq::new(d.fc@.len(), |i: int| eqs_model(d.fc@[i]@)),
    }
}

impl View for Dae {
    type V = DaeModel;

    open spec fn view(&self) -> DaeModel {
        dae_model(*self)
    }
}

// ---------------------------------------------------------------------------
// Occurrence of der(name) in the equations
// ---------------------------------------------------------------------------

/// Whether `e` is a reference whose first identifier is `name`.
pub open spec fn is_ref_to(e: ExpressionModel, name: Seq<char>) -> bool {
    match e {
        ExpressionModel::ComponentReference(c) => c.parts.len() > 0 && c.parts[0].ident.text
            == name,
        _ => false,
    }
}

/// Whether the call `der(name)` occurs in `e`.
pub open spec fn expr_has_der_of(e: ExpressionModel, name: Seq<char>) -> bool
    decreases e,
{
    match e {
        ExpressionModel::Empty => false,
        ExpressionModel::Terminal { .. } => false,
        ExpressionModel::ComponentReference(_) => false,
        ExpressionModel::Unary { rhs, .. } => expr_has_der_of(*rhs, name),
        ExpressionModel::Binary { lhs, rhs, .. } => expr_has_der_of(*lhs, name)
            || expr_has_der_of(*rhs, name),
        ExpressionModel::FunctionCall { comp, args } => (comp.parts.len() == 1
            && comp.parts[0].ident.text == "der"@ && args.len() == 1 && is_ref_to(args[0], name))
            || exprs_have_der_of(args, name),
        ExpressionModel::Range { start, step, end } => expr_has_der_of(*start, name) || match step {
            Some(s) => expr_has_der_of(*s, name),
            None => false,
        } || expr_has_der_of(*end, name),
    }
}

pub open spec fn exprs_have_der_of(s: Seq<ExpressionModel>, name: Seq<char>) -> bool
    decreases s,
{
    if s.len() == 0 {
        false
    } else {
        expr_has_der_of(s[0], name) || exprs_have_der_of(s.subrange(1, s.len() as int), name)
    }
}

pub open spec fn eq_has_der_of(e: EquationModel, name: Seq<char>) -> bool
    decreases e,
{
    match e {
        EquationModel::Simple { lhs, rhs } => expr_has_der_of(lhs, name) || expr_has_der_of(
            rhs,
            name,
        ),
        EquationModel::Connect { .. } => false,
        EquationModel::FunctionCall { args, .. } => exprs_have_der_of(args, name),
        EquationModel::If { cond_blocks, else_block } => eq_blocks_have_der_of(cond_blocks, name)
            || match else_block {
            Some(v) => eqs_have_der_of(v, name),
            None => false,
        },
        EquationModel::When(blocks) => eq_blocks_have_der_of(blocks, name),
    }
}

pub open spec fn eqs_have_der_of(s: Seq<EquationModel>, name: Seq<char>) -> bool
    decreases s,
{
    if s.len() == 0 {
        false
    } else {
        eq_has_der_of(s[0], name) || eqs_have_der_of(s.subrange(1, s.len() as int), name)
    }
}

pub open spec fn eq_blocks_have_der_of(s: Seq<EquationBlockModel>, name: Seq<char>) -> bool
    decreases s,
{
    if s.len() == 0 {
        false
    } else {
        expr_has_der_of(s[0].cond, name) || eqs_have_der_of(s[0].eqs, name)
            || eq_blocks_have_der_of(s.subrange(1, s.len() as int), name)
    }
}

/// Whether a call with this callee and these arguments is `der(name)`.
fn is_der_call_of(comp: &ComponentReference, args: &Vec<Expression>, name: &String) -> (r: bool)
    ensures
        r == (cref_model(*comp).parts.len() == 1 && cref_model(*comp).parts[0].ident.text
            == "der"@ && crate::ast::exprs_model(args@).len() == 1 && is_ref_to(
            crate::ast::exprs_model(args@)[0],
            name@,
        )),
{
    proof {
        crate::ast::lemma_cref_parts_model(comp.parts@);
        crate::ast::lemma_exprs_model(args@);
    }
    if comp.parts.len() == 1 && args.len() == 1 {
        let der_lit: String = "der".to_owned();
        if comp.parts[0].ident.text.eq(&der_lit) {
            match &args[0] {
                Expression::ComponentReference(c) => {
                    proof {
                        crate::ast::lemma_cref_parts_model(c.parts@);
                        assert(args@[0] == Expression::ComponentReference(*c));
                        assert(crate::ast::exprs_model(args@)[0]
                            == ExpressionModel::ComponentReference(cref_model(*c)));
                    }
                    if c.parts.len() > 0 && c.parts[0].ident.text.eq(name) {
                        proof {
                            assert(is_ref_to(crate::ast::exprs_model(args@)[0], name@));
                        }
                        true
                    } else {
                        proof {
                            assert(!is_ref_to(crate::ast::exprs_model(args@)[0], name@));
                        }
                        false
                    }
                },
                _ => {
                    proof {
                        assert(!is_ref_to(crate::ast::exprs_model(args@)[0], name@));
                    }
                    false
                },
            }
        } else {
            false
        }
    } else {
        false
    }
}

/// Whether the call `der(name)` occurs in `e`.
pub fn expr_contains_der_of(e: &Expression, name: &String) -> (r: bool)
    ensures
        r == expr_has_der_of(expr_model(*e), name@),
    decreases *e,
{
    match e {
        Expression::Empty => {
            proof {
                assert(!expr_has_der_of(expr_model(*e), name@));
            }
            false
        },
        Expression::Terminal { .. } => {
            proof {
                assert(!expr_has_der_of(expr_model(*e), name@));
            }
            false
        },
        Expression::ComponentReference(_) => {
            proof {
                assert(!expr_has_der_of(expr_model(*e), name@));
            }
            false
        },
        Expression::Unary { rhs, .. } => {
            let r0 = expr_contains_der_of(rhs, name);
            proof {
                assert(r0 == expr_has_der_of(expr_model(*e), name@));
            }
            r0
        },
        Expression::Binary { lhs, rhs, .. } => {
            let r0 = expr_contains_der_of(lhs, name) || expr_contains_der_of(rhs, name);
            proof {
                assert(r0 == expr_has_der_of(expr_model(*e), name@));
            }
            r0
        },
        Expression::FunctionCall { comp, args } => {
            proof {
                crate::ast::lemma_cref_parts_model(comp.parts@);
                crate::ast::lemma_exprs_model(args@);
            }
            let ghost em = expr_model(*e);
            let hit = is_der_call_of(comp, args, name);
            let rest = exprs_contain_der_of(args, name);
            let r0 = hit || rest;
            proof {
                assert(em == ExpressionModel::FunctionCall {
                    comp: cref_model(*comp),
                    args: crate::ast::exprs_model(args@),
                });
                assert(r0 == expr_has_der_of(em, name@));
            }
            r0
        },
        Expression::Range { start, step, end } => {
            let mut r0 = expr_contains_der_of(start, name);
            if !r0 {
                match step {
                    Some(s) => {
                        proof {
                            assert(decreases_to!(*e => *step));
                            assert(decreases_to!(*step => **s));
                        }
                        r0 = expr_contains_der_of(s, name);
                    },
                    None => {},
                }
            }
            if !r0 {
                r0 = expr_contains_der_of(end, name);
            }
            proof {
                assert(r0 == expr_has_der_of(expr_model(*e), name@));
            }
            r0
        },
    }
}

pub fn exprs_contain_der_of(v: &Vec<Expression>, name: &String) -> (r: bool)
    ensures
        r == exprs_have_der_of(crate::ast::exprs_model(v@), name@),
    decreases v@,
{
    let n = v.len();
    let mut i: usize = 0;
    proof {
        crate::ast::lemma_exprs_model(v@);
        lemma_exprs_have_der_of(crate::ast::exprs_model(v@), name@);
    }
    while i < n
        invariant
            n == v@.len(),
            0 <= i <= n,
            forall|j: int|
                0 <= j < i ==> !expr_has_der_of(
                    crate::ast::exprs_model(v@)[j],
                    name@,
                ),
            crate::ast::exprs_model(v@).len() == n,
            forall|j: int|
                0 <= j < n ==> crate::ast::exprs_model(v@)[j] == expr_model(v@[j]),
            exprs_have_der_of(crate::ast::exprs_model(v@), name@) <==> exists|j: int|
                0 <= j < n && expr_has_der_of(#[trigger] crate::ast::exprs_model(v@)[j], name@),
        decreases n - i,
    {
        if expr_contains_der_of(&v[i], name) {
            proof {
                assert(expr_has_der_of(crate::ast::exprs_model(v@)[i as int], name@));
            }
            return true;
        }
        i += 1;
    }
    false
}

pub fn eq_contains_der_of(e: &Equation, name: &String) -> (r: bool)
    ensures
        r == eq_has_der_of(eq_model(*e), name@),
    decreases *e,
{
    match e {
        Equation::Simple { lhs, rhs } => expr_contains_der_of(lhs, name) || expr_contains_der_of(
            rhs,
            name,
        ),
        Equation::Connect { .. } => false,
        Equation::FunctionCall { comp, args } => {
            proof {
                crate::ast::lemma_exprs_model(args@);
            }
            exprs_contain_der_of(args, name)
        },
        Equation::If { cond_blocks, else_block } => eq_blocks_contain_der_of(cond_blocks, name)
            || (match else_block {
            Some(v) => {
                proof {
                    assert(decreases_to!(*e => *else_block));
                    assert(decreases_to!(*else_block => *v));
                    assert(decreases_to!(*v => v@));
                }
                eqs_contain_der_of(v, name)
            },
            None => false,
        }),
        Equation::When(blocks) => eq_blocks_contain_der_of(blocks, name),
    }
}

pub fn eqs_contain_der_of(v: &Vec<Equation>, name: &String) -> (r: bool)
    ensures
        r == eqs_have_der_of(eqs_model(v@), name@),
    decreases v@,
{
    let n = v.len();
    let mut i: usize = 0;
    proof {
        lemma_eqs_model(v@);
        lemma_eqs_have_der_of(eqs_model(v@), name@);
    }
    while i < n
        invariant
            n == v@.len(),
            0 <= i <= n,
            forall|j: int| 0 <= j < i ==> !eq_has_der_of(eqs_model(v@)[j], name@),
            eqs_model(v@).len() == n,
            forall|j: int| 0 <= j < n ==> eqs_model(v@)[j] == eq_model(v@[j]),
            eqs_have_der_of(eqs_model(v@), name@) <==> exists|j: int|
                0 <= j < n && eq_has_der_of(#[trigger] eqs_model(v@)[j], name@),
        decreases n - i,
    {
        if eq_contains_der_of(&v[i], name) {
            proof {
                assert(eq_has_der_of(eqs_model(v@)[i as int], name@));
            }
            return true;
        }
        i += 1;
    }
    false
}

pub fn eq_blocks_contain_der_of(v: &Vec<EquationBlock>, name: &String) -> (r: bool)
    ensures
        r == eq_blocks_have_der_of(crate::ast::eq_blocks_model(v@), name@),
    decreases v@,
{
    let n = v.len();
    let mut i: usize = 0;
    proof {
        crate::ast::lemma_eq_blocks_model(v@);
        lemma_eq_blocks_have_der_of(crate::ast::eq_blocks_model(v@), name@);
    }
    while i < n
        invariant
            n == v@.len(),
            0 <= i <= n,
            crate::ast::eq_blocks_model(v@).len() == n,
            forall|j: int|
                0 <= j < n ==> crate::ast::eq_blocks_model(v@)[j] == crate::ast::eq_block_model(
                    v@[j],
                ),
            forall|j: int|
                0 <= j < i ==> !(expr_has_der_of(crate::ast::eq_blocks_model(v@)[j].cond, name@)
                    || eqs_have_der_of(crate::ast::eq_blocks_model(v@)[j].eqs, name@)),
            eq_blocks_have_der_of(crate::ast::eq_blocks_model(v@), name@) <==> exists|j: int|
                0 <= j < n && (expr_has_der_of(
                    (#[trigger] crate::ast::eq_blocks_model(v@)[j]).cond,
                    name@,
                ) || eqs_have_der_of(crate::ast::eq_blocks_model(v@)[j].eqs, name@)),
        decreases n - i,
    {
        let b = &v[i];
        proof {
            assert(decreases_to!(v@[i as int] => v@[i as int].eqs));
            assert(decreases_to!(v@[i as int].eqs => v@[i as int].eqs@));
        }
        if expr_contains_der_of(&b.cond, name) || eqs_contain_der_of(&b.eqs, name) {
            proof {
                assert(expr_has_der_of(crate::ast::eq_blocks_model(v@)[i as int].cond, name@)
                    || eqs_have_der_of(crate::ast::eq_blocks_model(v@)[i as int].eqs, name@));
            }
            return true;
        }
        i += 1;
    }
    false
}

pub proof fn lemma_exprs_have_der_of(s: Seq<ExpressionModel>, name: Seq<char>)
    ensures
        exprs_have_der_of(s, name) <==> exists|j: int|
            0 <= j < s.len() && expr_has_der_of(#[trigger] s[j], name),
    decreases s,
{
    if s.len() > 0 {
        let sub = s.subrange(1, s.len() as int);
        lemma_exprs_have_der_of(sub, name);
        assert forall|j: int| 1 <= j < s.len() implies s[j] == sub[j - 1] by {}
        if exprs_have_der_of(s, name) {
            if !expr_has_der_of(s[0], name) {
                let w = choose|w: int| 0 <= w < sub.len() && expr_has_der_of(#[trigger] sub[w], name);
                assert(expr_has_der_of(s[w + 1], name));
            }
        }
        if exists|j: int| 0 <= j < s.len() && expr_has_der_of(#[trigger] s[j], name) {
            let w = choose|w: int| 0 <= w < s.len() && expr_has_der_of(#[trigger] s[w], name);
            if w > 0 {
                assert(expr_has_der_of(sub[w - 1], name));
            }
        }
    }
}

pub proof fn lemma_eqs_have_der_of(s: Seq<EquationModel>, name: Seq<char>)
    ensures
        eqs_have_der_of(s, name) <==> exists|j: int|
            0 <= j < s.len() && eq_has_der_of(#[trigger] s[j], name),
    decreases s,
{
    if s.len() > 0 {
        let sub = s.subrange(1, s.len() as int);
        lemma_eqs_have_der_of(sub, name);
        assert forall|j: int| 1 <= j < s.len() implies s[j] == sub[j - 1] by {}
        if eqs_have_der_of(s, name) {
            if !eq_has_der_of(s[0], name) {
                let w = choose|w: int| 0 <= w < sub.len() && eq_has_der_of(#[trigger] sub[w], name);
                assert(eq_has_der_of(s[w + 1], name));
            }
        }
        if exists|j: int| 0 <= j < s.len() && eq_has_der_of(#[trigger] s[j], name) {
            let w = choose|w: int| 0 <= w < s.len() && eq_has_der_of(#[trigger] s[w], name);
            if w > 0 {
                assert(eq_has_der_of(sub[w - 1], name));
            }
        }
    }
}

pub proof fn lemma_eq_blocks_have_der_of(s: Seq<EquationBlockModel>, name: Seq<char>)
    ensures
        eq_blocks_have_der_of(s, name) <==> exists|j: int|
            0 <= j < s.len() && (expr_has_der_of((#[trigger] s[j]).cond, name) || eqs_have_der_of(
                s[j].eqs,
                name,
            )),
    decreases s,
{
    if s.len() > 0 {
        let sub = s.subrange(1, s.len() as int);
        lemma_eq_blocks_have_der_of(sub, name);
        assert forall|j: int| 1 <= j < s.len() implies s[j] == sub[j - 1] by {}
        if eq_blocks_have_der_of(s, name) {
            if !(expr_has_der_of(s[0].cond, name) || eqs_have_der_of(s[0].eqs, name)) {
                let w = choose|w: int|
                    0 <= w < sub.len() && (expr_has_der_of((#[trigger] sub[w]).cond, name)
                        || eqs_have_der_of(sub[w].eqs, name));
                assert(expr_has_der_of(s[w + 1].cond, name) || eqs_have_der_of(
                    s[w + 1].eqs,
                    name,
                ));
            }
        }
        if exists|j: int|
            0 <= j < s.len() && (expr_has_der_of((#[trigger] s[j]).cond, name)
                || eqs_have_der_of(s[j].eqs, name)) {
            let w = choose|w: int|
                0 <= w < s.len() && (expr_has_der_of((#[trigger] s[w]).cond, name)
                    || eqs_have_der_of(s[w].eqs, name));
            if w > 0 {
                assert(expr_has_der_of(sub[w - 1].cond, name) || eqs_have_der_of(
                    sub[w - 1].eqs,
                    name,
                ));
            }
        }
    }
}

// ---------------------------------------------------------------------------
// First dangling reference
//
// A free identifier is the first identifier of a component reference that
// does not stand as a call's callee.  The search yields the first free
// identifier, in traversal order, that is not among the allowed names.
// ---------------------------------------------------------------------------

pub open spec fn opt_or(a: Option<Seq<char>>, b: Option<Seq<char>>) -> Option<Seq<char>> {
    match a {
        Some(x) => Some(x),
        None => b,
    }
}

/// How many entries of `s` equal `k`.
pub open spec fn seq_count(s: Seq<Seq<char>>, k: Seq<char>) -> nat
    decreases s,
{
    if s.len() == 0 {
        0
    } else {
        (if s[0] == k {
            1nat
        } else {
            0nat
        }) + seq_count(s.subrange(1, s.len() as int), k)
    }
}

/// Counts how many entries of `v` equal `t`.
pub fn count_string(v: &Vec<String>, t: &String) -> (r: usize)
    ensures
        r == seq_count(string_views(v@), t@),
{
    let ghost sv = string_views(v@);
    let n = v.len();
    let mut c: usize = 0;
    let mut i: usize = 0;
    proof {
        assert(sv.subrange(0, n as int) =~= sv);
    }
    while i < n
        invariant
            n == v@.len(),
            sv == string_views(v@),
            sv.len() == n,
            0 <= i <= n,
            c <= i,
            seq_count(sv, t@) == c + seq_count(sv.subrange(i as int, n as int), t@),
        decreases n - i,
    {
        let ghost srest = sv.subrange(i as int, n as int);
        proof {
            assert(srest[0] == sv[i as int]);
            assert(srest.subrange(1, srest.len() as int) =~= sv.subrange(i + 1, n as int));
        }
        if v[i].eq(t) {
            c += 1;
        }
        i += 1;
    }
    proof {
        assert(sv.subrange(n as int, n as int) =~= Seq::<Seq<char>>::empty());
    }
    c
}

/// The first identifier of a reference must name exactly one classified
/// variable; anything else (unknown, or ambiguous across buckets) is
/// dangling.
pub open spec fn cref_first_dangling(
    c: ComponentReferenceModel,
    allowed: Seq<Seq<char>>,
) -> Option<Seq<char>>
    decreases c,
{
    if c.parts.len() > 0 && seq_count(allowed, c.parts[0].ident.text) != 1 {
        Some(c.parts[0].ident.text)
    } else {
        parts_first_dangling(c.parts, allowed)
    }
}

pub open spec fn parts_first_dangling(
    s: Seq<ComponentRefPartModel>,
    allowed: Seq<Seq<char>>,
) -> Option<Seq<char>>
    decreases s,
{
    if s.len() == 0 {
        None
    } else {
        opt_or(
            match s[0].subs {
                Some(subs) => subs_first_dangling(subs, allowed),
                None => None,
            },
            parts_first_dangling(s.subrange(1, s.len() as int), allowed),
        )
    }
}

pub open spec fn subs_first_dangling(
    s: Seq<SubscriptModel>,
    allowed: Seq<Seq<char>>,
) -> Option<Seq<char>>
    decreases s,
{
    if s.len() == 0 {
        None
    } else {
        opt_or(
            match s[0] {
                SubscriptModel::Range { .. } => None,
                SubscriptModel::Expression(e) => expr_first_dangling(e, allowed),
            },
            subs_first_dangling(s.subrange(1, s.len() as int), allowed),
        )
    }
}

pub open spec fn expr_first_dangling(e: ExpressionModel, allowed: Seq<Seq<char>>) -> Option<
    Seq<char>,
>
    decreases e,
{
    match e {
        ExpressionModel::Empty => None,
        ExpressionModel::Terminal { .. } => None,
        ExpressionModel::ComponentReference(c) => cref_first_dangling(c, allowed),
        ExpressionModel::Unary { rhs, .. } => expr_first_dangling(*rhs, allowed),
        ExpressionModel::Binary { lhs, rhs, .. } => opt_or(
            expr_first_dangling(*lhs, allowed),
            expr_first_dangling(*rhs, allowed),
        ),
        ExpressionModel::FunctionCall { comp, args } => exprs_first_dangling(args, allowed),
        ExpressionModel::Range { start, step, end } => opt_or(
            expr_first_dangling(*start, allowed),
            opt_or(
                match step {
                    Some(s) => expr_first_dangling(*s, allowed),
                    None => None,
                },
                expr_first_dangling(*end, allowed),
            ),
        ),
    }
}

pub open spec fn exprs_first_dangling(
    s: Seq<ExpressionModel>,
    allowed: Seq<Seq<char>>,
) -> Option<Seq<char>>
    decreases s,
{
    if s.len() == 0 {
        None
    } else {
        opt_or(
            expr_first_dangling(s[0], allowed),
            exprs_first_dangling(s.subrange(1, s.len() as int), allowed),
        )
    }
}

pub open spec fn eq_first_dangling(e: EquationModel, allowed: Seq<Seq<char>>) -> Option<
    Seq<char>,
>
    decreases e,
{
    match e {
        EquationModel::Simple { lhs, rhs } => opt_or(
            expr_first_dangling(lhs, allowed),
            expr_first_dangling(rhs, allowed),
        ),
        EquationModel::Connect { lhs, rhs } => opt_or(
            cref_first_dangling(lhs, allowed),
            cref_first_dangling(rhs, allowed),
        ),
        EquationModel::FunctionCall { comp, args } => exprs_first_dangling(args, allowed),
        EquationModel::If { cond_blocks, else_block } => opt_or(
            eq_blocks_first_dangling(cond_blocks, allowed),
            match else_block {
                Some(v) => eqs_first_dangling(v, allowed),
                None => None,
            },
        ),
        EquationModel::When(blocks) => eq_blocks_first_dangling(blocks, allowed),
    }
}

pub open spec fn eqs_first_dangling(
    s: Seq<EquationModel>,
    allowed: Seq<Seq<char>>,
) -> Option<Seq<char>>
    decreases s,
{
    if s.len() == 0 {
        None
    } else {
        opt_or(
            eq_first_dangling(s[0], allowed),
            eqs_first_dangling(s.subrange(1, s.len() as int), allowed),
        )
    }
}

pub open spec fn eq_blocks_first_dangling(
    s: Seq<EquationBlockModel>,
    allowed: Seq<Seq<char>>,
) -> Option<Seq<char>>
    decreases s,
{
    if s.len() == 0 {
        None
    } else {
        opt_or(
            opt_or(
                expr_first_dangling(s[0].cond, allowed),
                eqs_first_dangling(s[0].eqs, allowed),
            ),
            eq_blocks_first_dangling(s.subrange(1, s.len() as int), allowed),
        )
    }
}

/// Searches a reference for its first dangling identifier.
pub fn find_dangling_cref(c: &ComponentReference, allowed: &Vec<String>) -> (r: Option<String>)
    ensures
        match r {
            Some(x) => cref_first_dangling(cref_model(*c), string_views(allowed@)) == Some(x@),
            None => cref_first_dangling(cref_model(*c), string_views(allowed@)) == None::<
                Seq<char>,
            >,
        },
    decreases *c,
{
    proof {
        crate::ast::lemma_cref_parts_model(c.parts@);
    }
    let ghost cm = cref_model(*c);
    let ghost av = string_views(allowed@);
    if c.parts.len() > 0 && count_string(allowed, &c.parts[0].ident.text) != 1 {
        return Some(c.parts[0].ident.text.clone());
    }
    let n = c.parts.len();
    let mut i: usize = 0;
    proof {
        assert(cm.parts.subrange(0, n as int) =~= cm.parts);
    }
    while i < n
        invariant
            n == c.parts@.len(),
            0 <= i <= n,
            cm == cref_model(*c),
            av == string_views(allowed@),
            cm.parts.len() == n,
            forall|j: int|
                0 <= j < n ==> cm.parts[j] == crate::ast::cref_part_model(c.parts@[j]),
            parts_first_dangling(cm.parts, av) == parts_first_dangling(
                cm.parts.subrange(i as int, n as int),
                av,
            ),
            cref_first_dangling(cm, av) == parts_first_dangling(cm.parts, av),
            decreases_to!(*c => c.parts@),
        decreases n - i,
    {
        let ghost prest = cm.parts.subrange(i as int, n as int);
        proof {
            assert(prest[0] == cm.parts[i as int]);
            assert(decreases_to!(c.parts@ => c.parts@[i as int]));
        }
        let p = &c.parts[i];
        let hit: Option<String> = match &p.subs {
            Some(v) => {
                proof {
                    assert(decreases_to!(*p => p.subs));
                    assert(decreases_to!(p.subs => *v));
                    assert(decreases_to!(*v => v@));
                }
                find_dangling_subs(v, allowed)
            },
            None => None,
        };
        match hit {
            Some(x) => {
                return Some(x);
            },
            None => {},
        }
        proof {
            assert(prest.subrange(1, prest.len() as int) =~= cm.parts.subrange(
                i + 1,
                n as int,
            ));
        }
        i += 1;
    }
    proof {
        assert(cm.parts.subrange(n as int, n as int) =~= Seq::<ComponentRefPartModel>::empty());
    }
    None
}

/// Searches a subscript list for its first dangling identifier.
pub fn find_dangling_subs(v: &Vec<Subscript>, allowed: &Vec<String>) -> (r: Option<String>)
    ensures
        match r {
            Some(x) => subs_first_dangling(
                crate::ast::subscripts_model(v@),
                string_views(allowed@),
            ) == Some(x@),
            None => subs_first_dangling(crate::ast::subscripts_model(v@), string_views(allowed@))
                == None::<Seq<char>>,
        },
    decreases v@,
{
    let ghost sm = crate::ast::subscripts_model(v@);
    let ghost av = string_views(allowed@);
    proof {
        crate::ast::lemma_subscripts_model(v@);
        assert(sm.subrange(0, sm.len() as int) =~= sm);
    }
    let n = v.len();
    let mut i: usize = 0;
    while i < n
        invariant
            n == v@.len(),
            sm == crate::ast::subscripts_model(v@),
            av == string_views(allowed@),
            0 <= i <= n,
            sm.len() == n,
            forall|j: int| 0 <= j < n ==> sm[j] == crate::ast::subscript_model(v@[j]),
            subs_first_dangling(sm, av) == subs_first_dangling(
                sm.subrange(i as int, n as int),
                av,
            ),
        decreases n - i,
    {
        let ghost srest = sm.subrange(i as int, n as int);
        proof {
            assert(srest[0] == sm[i as int]);
        }
        let hit: Option<String> = match &v[i] {
            Subscript::Range { .. } => None,
            Subscript::Expression(e) => find_dangling_expr(e, allowed),
        };
        match hit {
            Some(x) => {
                return Some(x);
            },
            None => {},
        }
        proof {
            assert(srest.subrange(1, srest.len() as int) =~= sm.subrange(i + 1, n as int));
        }
        i += 1;
    }
    proof {
        assert(sm.subrange(n as int, n as int) =~= Seq::<SubscriptModel>::empty());
    }
    None
}

/// Searches an expression for its first dangling identifier.
pub fn find_dangling_expr(e: &Expression, allowed: &Vec<String>) -> (r: Option<String>)
    ensures
        match r {
            Some(x) => expr_first_dangling(expr_model(*e), string_views(allowed@)) == Some(x@),
            None => expr_first_dangling(expr_model(*e), string_views(allowed@)) == None::<
                Seq<char>,
            >,
        },
    decreases *e,
{
    match e {
        Expression::Empty => None,
        Expression::Terminal { .. } => None,
        Expression::ComponentReference(c) => find_dangling_cref(c, allowed),
        Expression::Unary { rhs, .. } => find_dangling_expr(rhs, allowed),
        Expression::Binary { lhs, rhs, .. } => {
            let a = find_dangling_expr(lhs, allowed);
            match a {
                Some(x) => Some(x),
                None => find_dangling_expr(rhs, allowed),
            }
        },
        Expression::FunctionCall { comp, args } => {
            proof {
                crate::ast::lemma_exprs_model(args@);
            }
            find_dangling_exprs(args, allowed)
        },
        Expression::Range { start, step, end } => {
            let a = find_dangling_expr(start, allowed);
            match a {
                Some(x) => Some(x),
                None => {
                    let b: Option<String> = match step {
                        Some(s) => {
                            proof {
                                assert(decreases_to!(*e => *step));
                                assert(decreases_to!(*step => **s));
                            }
                            find_dangling_expr(s, allowed)
                        },
                        None => None,
                    };
                    match b {
                        Some(x) => Some(x),
                        None => find_dangling_expr(end, allowed),
                    }
                },
            }
        },
    }
}

/// Searches an expression list for its first dangling identifier.
pub fn find_dangling_exprs(v: &Vec<Expression>, allowed: &Vec<String>) -> (r: Option<String>)
    ensures
        match r {
            Some(x) => exprs_first_dangling(
                crate::ast::exprs_model(v@),
                string_views(allowed@),
            ) == Some(x@),
            None => exprs_first_dangling(crate::ast::exprs_model(v@), string_views(allowed@))
                == None::<Seq<char>>,
        },
    decreases v@,
{
    let ghost sm = crate::ast::exprs_model(v@);
    let ghost av = string_views(allowed@);
    proof {
        crate::ast::lemma_exprs_model(v@);
        assert(sm.subrange(0, sm.len() as int) =~= sm);
    }
    let n = v.len();
    let mut i: usize = 0;
    while i < n
        invariant
            n == v@.len(),
            sm == crate::ast::exprs_model(v@),
            av == string_views(allowed@),
            0 <= i <= n,
            sm.len() == n,
            forall|j: int| 0 <= j < n ==> sm[j] == expr_model(v@[j]),
            exprs_first_dangling(sm, av) == exprs_first_dangling(
                sm.subrange(i as int, n as int),
                av,
            ),
        decreases n - i,
    {
        let ghost srest = sm.subrange(i as int, n as int);
        proof {
            assert(srest[0] == sm[i as int]);
        }
        match find_dangling_expr(&v[i], allowed) {
            Some(x) => {
                return Some(x);
            },
            None => {},
        }
        proof {
            assert(srest.subrange(1, srest.len() as int) =~= sm.subrange(i + 1, n as int));
        }
        i += 1;
    }
    proof {
        assert(sm.subrange(n as int, n as int) =~= Seq::<ExpressionModel>::empty());
    }
    None
}

/// Searches an equation for its first dangling identifier.
pub fn find_dangling_eq(e: &Equation, allowed: &Vec<String>) -> (r: Option<String>)
    ensures
        match r {
            Some(x) => eq_first_dangling(eq_model(*e), string_views(allowed@)) == Some(x@),
            None => eq_first_dangling(eq_model(*e), string_views(allowed@)) == None::<Seq<char>>,
        },
    decreases *e,
{
    match e {
        Equation::Simple { lhs, rhs } => {
            let a = find_dangling_expr(lhs, allowed);
            match a {
                Some(x) => Some(x),
                None => find_dangling_expr(rhs, allowed),
            }
        },
        Equation::Connect { lhs, rhs } => {
            let a = find_dangling_cref(lhs, allowed);
            match a {
                Some(x) => Some(x),
                None => find_dangling_cref(rhs, allowed),
            }
        },
        Equation::FunctionCall { comp, args } => {
            proof {
                crate::ast::lemma_exprs_model(args@);
            }
            find_dangling_exprs(args, allowed)
        },
        Equation::If { cond_blocks, else_block } => {
            let a = find_dangling_eq_blocks(cond_blocks, allowed);
            match a {
                Some(x) => Some(x),
                None => match else_block {
                    Some(v) => {
                        proof {
                            assert(decreases_to!(*e => *else_block));
                            assert(decreases_to!(*else_block => *v));
                            assert(decreases_to!(*v => v@));
                        }
                        find_dangling_eqs(v, allowed)
                    },
                    None => None,
                },
            }
        },
        Equation::When(blocks) => find_dangling_eq_blocks(blocks, allowed),
    }
}

/// Searches an equation list for its first dangling identifier.
pub fn find_dangling_eqs(v: &Vec<Equation>, allowed: &Vec<String>) -> (r: Option<String>)
    ensures
        match r {
            Some(x) => eqs_first_dangling(eqs_model(v@), string_views(allowed@)) == Some(x@),
            None => eqs_first_dangling(eqs_model(v@), string_views(allowed@)) == None::<
                Seq<char>,
            >,
        },
    decreases v@,
{
    let ghost sm = eqs_model(v@);
    let ghost av = string_views(allowed@);
    proof {
        lemma_eqs_model(v@);
        assert(sm.subrange(0, sm.len() as int) =~= sm);
    }
    let n = v.len();
    let mut i: usize = 0;
    while i < n
        invariant
            n == v@.len(),
            sm == eqs_model(v@),
            av == string_views(allowed@),
            0 <= i <= n,
            sm.len() == n,
            forall|j: int| 0 <= j < n ==> sm[j] == eq_model(v@[j]),
            eqs_first_dangling(sm, av) == eqs_first_dangling(
                sm.subrange(i as int, n as int),
                av,
            ),
        decreases n - i,
    {
        let ghost srest = sm.subrange(i as int, n as int);
        proof {
            assert(srest[0] == sm[i as int]);
        }
        match find_dangling_eq(&v[i], allowed) {
            Some(x) => {
                return Some(x);
            },
            None => {},
        }
        proof {
            assert(srest.subrange(1, srest.len() as int) =~= sm.subrange(i + 1, n as int));
        }
        i += 1;
    }
    proof {
        assert(sm.subrange(n as int, n as int) =~= Seq::<EquationModel>::empty());
    }
    None
}

/// Searches a block list for its first dangling identifier.
pub fn find_dangling_eq_blocks(v: &Vec<EquationBlock>, allowed: &Vec<String>) -> (r: Option<
    String,
>)
    ensures
        match r {
            Some(x) => eq_blocks_first_dangling(
                crate::ast::eq_blocks_model(v@),
                string_views(allowed@),
            ) == Some(x@),
            None => eq_blocks_first_dangling(
                crate::ast::eq_blocks_model(v@),
                string_views(allowed@),
            ) == None::<Seq<char>>,
        },
    decreases v@,
{
    let ghost sm = crate::ast::eq_blocks_model(v@);
    let ghost av = string_views(allowed@);
    proof {
        crate::ast::lemma_eq_blocks_model(v@);
        assert(sm.subrange(0, sm.len() as int) =~= sm);
    }
    let n = v.len();
    let mut i: usize = 0;
    while i < n
        invariant
            n == v@.len(),
            sm == crate::ast::eq_blocks_model(v@),
            av == string_views(allowed@),
            0 <= i <= n,
            sm.len() == n,
            forall|j: int| 0 <= j < n ==> sm[j] == crate::ast::eq_block_model(v@[j]),
            eq_blocks_first_dangling(sm, av) == eq_blocks_first_dangling(
                sm.subrange(i as int, n as int),
                av,
            ),
        decreases n - i,
    {
        let ghost srest = sm.subrange(i as int, n as int);
        proof {
            assert(srest[0] == sm[i as int]);
        }
        let b = &v[i];
        proof {
            assert(decreases_to!(v@[i as int] => v@[i as int].eqs));
            assert(decreases_to!(v@[i as int].eqs => v@[i as int].eqs@));
        }
        let a = find_dangling_expr(&b.cond, allowed);
        let hit: Option<String> = match a {
            Some(x) => Some(x),
            None => find_dangling_eqs(&b.eqs, allowed),
        };
        match hit {
            Some(x) => {
                return Some(x);
            },
            None => {},
        }
        proof {
            assert(srest.subrange(1, srest.len() as int) =~= sm.subrange(i + 1, n as int));
        }
        i += 1;
    }
    proof {
        assert(sm.subrange(n as int, n as int) =~= Seq::<EquationBlockModel>::empty());
    }
    None
}

// ---------------------------------------------------------------------------
// Classification and routing, over models
// ---------------------------------------------------------------------------

/// The names of the components, in order.
pub open spec fn comp_names(s: Seq<ComponentModel>) -> Seq<Seq<char>> {
    s.map_values(|c: ComponentModel| c.name)
}

/// The dotted text of a component's type.
pub open spec fn comp_type_text(c: ComponentModel) -> Seq<char> {
    join_texts(c.type_specifier.map_values(|t: TokenModel| t.text), '.')
}

/// The synthesized time component: `Real time`, used for `t` when the
/// class declares no component named `time`.
pub open spec fn default_time_model() -> ComponentModel {
    ComponentModel {
        name: "time"@,
        type_specifier: seq![synthetic_token_model("Real"@)],
        variability: VariabilityModel::Empty,
        causality: CausalityModel::Empty,
        connection: crate::ast::ConnectionModel::Empty,
        description: Seq::empty(),
        start: ExpressionModel::Empty,
    }
}

/// The DAE with no variables and no equations.
pub open spec fn empty_dae_model() -> DaeModel {
    DaeModel {
        p: Seq::empty(),
        cp: Seq::empty(),
        t: default_time_model(),
        x: Seq::empty(),
        x_dot: Seq::empty(),
        y: Seq::empty(),
        u: Seq::empty(),
        pre_z: Seq::empty(),
        z: Seq::empty(),
        m: Seq::empty(),
        c: Seq::empty(),
        relation: Seq::empty(),
        fx: Seq::empty(),
        fz: Seq::empty(),
        fm: Seq::empty(),
        fc: Seq::empty(),
    }
}

/// Places one component in its bucket, by the first matching rule.
pub open spec fn spec_classify_step(
    cm: ComponentModel,
    eqs: Seq<EquationModel>,
    acc: DaeModel,
) -> DaeModel {
    if cm.name == "time"@ {
        DaeModel { t: cm, ..acc }
    } else if cm.variability is Constant {
        DaeModel { cp: acc.cp.push(cm), ..acc }
    } else if cm.variability is Parameter {
        DaeModel { p: acc.p.push(cm), ..acc }
    } else if cm.causality is Input {
        DaeModel { u: acc.u.push(cm), ..acc }
    } else if comp_type_text(cm) == "Real"@ && cm.variability is Discrete {
        DaeModel {
            z: acc.z.push(cm),
            pre_z: acc.pre_z.push(ComponentModel { name: "pre_"@ + cm.name, ..cm }),
            ..acc
        }
    } else if comp_type_text(cm) == "Real"@ && eqs_have_der_of(eqs, cm.name) {
        DaeModel {
            x: acc.x.push(cm),
            x_dot: acc.x_dot.push(ComponentModel { name: "der_"@ + cm.name, ..cm }),
            ..acc
        }
    } else if comp_type_text(cm) == "Real"@ {
        DaeModel { y: acc.y.push(cm), ..acc }
    } else {
        DaeModel { m: acc.m.push(cm), ..acc }
    }
}

/// Classifies the components in declaration order.
pub open spec fn spec_classify(
    comps: Seq<(Seq<char>, ComponentModel)>,
    eqs: Seq<EquationModel>,
    acc: DaeModel,
) -> DaeModel
    decreases comps.len(),
{
    if comps.len() == 0 {
        acc
    } else {
        spec_classify(
            comps.subrange(1, comps.len() as int),
            eqs,
            spec_classify_step(comps[0].1, eqs, acc),
        )
    }
}

/// Whether a `when`-body equation updates an `m` variable.
pub open spec fn when_eq_is_m(e: EquationModel, m_names: Seq<Seq<char>>) -> bool {
    match e {
        EquationModel::Simple { lhs, rhs } => match lhs {
            ExpressionModel::ComponentReference(c) => c.parts.len() > 0 && m_names.contains(
                c.parts[0].ident.text,
            ),
            _ => false,
        },
        _ => false,
    }
}

/// Whether a condition is a relation.
pub open spec fn cond_is_relation(e: ExpressionModel) -> bool {
    match e {
        ExpressionModel::Binary { op, .. } => op_is_relational(op),
        _ => false,
    }
}

/// Routes one `when` body: each equation to `fm` or `fz`.
pub open spec fn spec_route_body(
    eqs: Seq<EquationModel>,
    m_names: Seq<Seq<char>>,
    acc: DaeModel,
) -> DaeModel
    decreases eqs.len(),
{
    if eqs.len() == 0 {
        acc
    } else {
        let acc1 = if when_eq_is_m(eqs[0], m_names) {
            DaeModel { fm: acc.fm.push(eqs[0]), ..acc }
        } else {
            DaeModel { fz: acc.fz.push(eqs[0]), ..acc }
        };
        spec_route_body(eqs.subrange(1, eqs.len() as int), m_names, acc1)
    }
}

/// Routes the blocks of a `when` equation in order.
pub open spec fn spec_route_blocks(
    blocks: Seq<EquationBlockModel>,
    m_names: Seq<Seq<char>>,
    acc: DaeModel,
) -> DaeModel
    decreases blocks.len(),
{
    if blocks.len() == 0 {
        acc
    } else {
        let b = blocks[0];
        let acc1 = DaeModel {
            c: acc.c.push(b.cond),
            relation: if cond_is_relation(b.cond) {
                acc.relation.push(b.cond)
            } else {
                acc.relation
            },
            fc: acc.fc.push(b.eqs),
            ..acc
        };
        let acc2 = spec_route_body(b.eqs, m_names, acc1);
        spec_route_blocks(blocks.subrange(1, blocks.len() as int), m_names, acc2)
    }
}

/// Routes one equation.
pub open spec fn spec_route_eq(e: EquationModel, m_names: Seq<Seq<char>>, acc: DaeModel) -> DaeModel {
    match e {
        EquationModel::When(blocks) => spec_route_blocks(blocks, m_names, acc),
        EquationModel::Connect { .. } => acc,
        _ => DaeModel { fx: acc.fx.push(e), ..acc },
    }
}

/// Routes the equations in order.
pub open spec fn spec_route(
    eqs: Seq<EquationModel>,
    m_names: Seq<Seq<char>>,
    acc: DaeModel,
) -> DaeModel
    decreases eqs.len(),
{
    if eqs.len() == 0 {
        acc
    } else {
        spec_route(eqs.subrange(1, eqs.len() as int), m_names, spec_route_eq(eqs[0], m_names, acc))
    }
}

/// The identifiers an equation of the partitioned system may refer to.
pub open spec fn spec_allowed(d: DaeModel) -> Seq<Seq<char>> {
    comp_names(d.p) + comp_names(d.cp) + seq![d.t.name] + comp_names(d.x) + comp_names(d.x_dot)
        + comp_names(d.y) + comp_names(d.u) + comp_names(d.z) + comp_names(d.pre_z) + comp_names(
        d.m,
    )
}

/// Builds the synthesized time component.
pub fn default_time_component() -> (r: Component)
    ensures
        comp_model(r) == default_time_model(),
{
    let mut toks: Vec<Token> = Vec::new();
    toks.push(synthetic_token("Real".to_owned()));
    let r = Component {
        name: "time".to_owned(),
        type_specifier: Name { name: toks },
        variability: Variability::Empty,
        causality: Causality::Empty,
        connection: Connection::Empty,
        description: Vec::new(),
        start: Expression::Empty,
    };
    proof {
        assert(tokens_model(r.type_specifier.name@) =~= seq![synthetic_token_model("Real"@)]);
        assert(tokens_model(r.description@) =~= Seq::<TokenModel>::empty());
    }
    r
}

/// Places one component into its bucket of `d`, as
/// [`spec_classify_step`] states.
fn classify_component(comp: &Component, eqs: &Vec<Equation>, d: &mut Dae)
    ensures
        dae_model(*final(d)) == spec_classify_step(
            comp_model(*comp),
            eqs_model(eqs@),
            dae_model(*old(d)),
        ),
{
    let ghost cm = comp_model(*comp);
    let ghost acc = dae_model(*old(d));
    let time_lit: String = "time".to_owned();
    if comp.name.eq(&time_lit) {
        d.t = comp.duplicate();
        proof {
            assert(dae_model(*d) == (DaeModel { t: cm, ..acc }));
        }
        return ;
    }
    let constant = match &comp.variability {
        Variability::Constant(_) => true,
        _ => false,
    };
    if constant {
        let ghost before = d.cp@;
        d.cp.push(comp.duplicate());
        proof {
            assert(comps_model(d.cp@) =~= comps_model(before).push(cm));
            assert(dae_model(*d) == (DaeModel { cp: acc.cp.push(cm), ..acc }));
        }
        return ;
    }
    let parameter = match &comp.variability {
        Variability::Parameter(_) => true,
        _ => false,
    };
    if parameter {
        let ghost before = d.p@;
        d.p.push(comp.duplicate());
        proof {
            assert(comps_model(d.p@) =~= comps_model(before).push(cm));
            assert(dae_model(*d) == (DaeModel { p: acc.p.push(cm), ..acc }));
        }
        return ;
    }
    let input = match &comp.causality {
        Causality::Input(_) => true,
        _ => false,
    };
    if input {
        let ghost before = d.u@;
        d.u.push(comp.duplicate());
        proof {
            assert(comps_model(d.u@) =~= comps_model(before).push(cm));
            assert(dae_model(*d) == (DaeModel { u: acc.u.push(cm), ..acc }));
        }
        return ;
    }
    let tname = comp.type_specifier.text();
    let real_lit: String = "Real".to_owned();
    let is_real = tname.eq(&real_lit);
    let discrete = match &comp.variability {
        Variability::Discrete(_) => true,
        _ => false,
    };
    if is_real && discrete {
        let ghost before_z = d.z@;
        let ghost before_pre = d.pre_z@;
        d.z.push(comp.duplicate());
        let mut pre_c = comp.duplicate();
        let mut pname: String = "pre_".to_owned();
        pname.append(comp.name.as_str());
        pre_c.name = pname;
        proof {
            assert(comp_model(pre_c) == (ComponentModel { name: "pre_"@ + cm.name, ..cm }));
        }
        d.pre_z.push(pre_c);
        proof {
            assert(comps_model(d.z@) =~= comps_model(before_z).push(cm));
            assert(comps_model(d.pre_z@) =~= comps_model(before_pre).push(
                ComponentModel { name: "pre_"@ + cm.name, ..cm },
            ));
            assert(dae_model(*d) == (DaeModel {
                z: acc.z.push(cm),
                pre_z: acc.pre_z.push(ComponentModel { name: "pre_"@ + cm.name, ..cm }),
                ..acc
            }));
        }
        return ;
    }
    if is_real && eqs_contain_der_of(eqs, &comp.name) {
        let ghost before_x = d.x@;
        let ghost before_dot = d.x_dot@;
        d.x.push(comp.duplicate());
        let mut dot_c = comp.duplicate();
        let mut dname: String = "der_".to_owned();
        dname.append(comp.name.as_str());
        dot_c.name = dname;
        proof {
            assert(comp_model(dot_c) == (ComponentModel { name: "der_"@ + cm.name, ..cm }));
        }
        d.x_dot.push(dot_c);
        proof {
            assert(comps_model(d.x@) =~= comps_model(before_x).push(cm));
            assert(comps_model(d.x_dot@) =~= comps_model(before_dot).push(
                ComponentModel { name: "der_"@ + cm.name, ..cm },
            ));
            assert(dae_model(*d) == (DaeModel {
                x: acc.x.push(cm),
                x_dot: acc.x_dot.push(ComponentModel { name: "der_"@ + cm.name, ..cm }),
                ..acc
            }));
        }
        return ;
    }
    if is_real {
        let ghost before = d.y@;
        d.y.push(comp.duplicate());
        proof {
            assert(comps_model(d.y@) =~= comps_model(before).push(cm));
            assert(dae_model(*d) == (DaeModel { y: acc.y.push(cm), ..acc }));
        }
        return ;
    }
    let ghost before = d.m@;
    d.m.push(comp.duplicate());
    proof {
        assert(comps_model(d.m@) =~= comps_model(before).push(cm));
        assert(dae_model(*d) == (DaeModel { m: acc.m.push(cm), ..acc }));
    }
}

/// The names of the components, in order.
pub fn component_names(v: &Vec<Component>) -> (r: Vec<String>)
    ensures
        string_views(r@) == comp_names(comps_model(v@)),
{
    let mut r: Vec<String> = Vec::new();
    let n = v.len();
    let mut i: usize = 0;
    while i < n
        invariant
            n == v@.len(),
            0 <= i <= n,
            r@.len() == i,
            forall|j: int| 0 <= j < i ==> r@[j]@ == comp_model(v@[j]).name,
        decreases n - i,
    {
        r.push(v[i].name.clone());
        i += 1;
    }
    proof {
        assert(string_views(r@) =~= comp_names(comps_model(v@)));
    }
    r
}

/// Appends the names of the components to `dst`.
fn push_component_names(dst: &mut Vec<String>, v: &Vec<Component>)
    ensures
        string_views(final(dst)@) == string_views(old(dst)@) + comp_names(comps_model(v@)),
{
    let n = v.len();
    let mut i: usize = 0;
    while i < n
        invariant
            n == v@.len(),
            0 <= i <= n,
            dst@.len() == old(dst)@.len() + i,
            forall|j: int| 0 <= j < old(dst)@.len() ==> dst@[j] == old(dst)@[j],
            forall|j: int|
                0 <= j < i ==> dst@[old(dst)@.len() + j]@ == comp_model(v@[j]).name,
        decreases n - i,
    {
        dst.push(v[i].name.clone());
        i += 1;
    }
    proof {
        assert(string_views(dst@) =~= string_views(old(dst)@) + comp_names(comps_model(v@)));
    }
}

/// Whether the condition is a relation.
fn expr_is_relation(e: &Expression) -> (r: bool)
    ensures
        r == cond_is_relation(expr_model(*e)),
{
    match e {
        Expression::Binary { op, .. } => match op {
            OpBinary::Eq(_) => true,
            OpBinary::Gt(_) => true,
            OpBinary::Lt(_) => true,
            OpBinary::Ge(_) => true,
            OpBinary::Le(_) => true,
            OpBinary::Neq(_) => true,
            _ => false,
        },
        _ => false,
    }
}

/// Whether a `when`-body equation updates an `m` variable.
fn when_body_eq_is_m(e: &Equation, m_names: &Vec<String>) -> (r: bool)
    ensures
        r == when_eq_is_m(eq_model(*e), string_views(m_names@)),
{
    match e {
        Equation::Simple { lhs, rhs } => {
            proof {
                assert(eq_model(*e) == EquationModel::Simple {
                    lhs: expr_model(*lhs),
                    rhs: expr_model(*rhs),
                });
            }
            match lhs {
                Expression::ComponentReference(c) => {
                    proof {
                        crate::ast::lemma_cref_parts_model(c.parts@);
                        assert(expr_model(*lhs) == ExpressionModel::ComponentReference(
                            cref_model(*c),
                        ));
                    }
                    if c.parts.len() > 0 {
                        let r0 = contains_string(m_names, &c.parts[0].ident.text);
                        proof {
                            assert(r0 == when_eq_is_m(eq_model(*e), string_views(m_names@)));
                        }
                        r0
                    } else {
                        false
                    }
                },
                _ => {
                    proof {
                        assert(!when_eq_is_m(eq_model(*e), string_views(m_names@)));
                    }
                    false
                },
            }
        },
        _ => false,
    }
}

/// The partitioned system for a flattened class, or the first dangling
/// reference.
pub open spec fn spec_partition(class: ClassModel) -> Result<DaeModel, ErrorModel> {
    let d1 = spec_classify(class.components, class.equations, empty_dae_model());
    let d2 = spec_route(class.equations, comp_names(d1.m), d1);
    let allowed = spec_allowed(d2);
    match opt_or(
        eqs_first_dangling(d2.fx, allowed),
        opt_or(eqs_first_dangling(d2.fz, allowed), eqs_first_dangling(d2.fm, allowed)),
    ) {
        Some(nm) => Err(ErrorModel::DanglingReference { name: nm }),
        None => Ok(d2),
    }
}

/// Partitions a flattened class into its DAE system, as
/// [`spec_partition`] states.
pub fn partition(class: &ClassDefinition) -> (r: Result<Dae, Error>)
    requires
        class.components.wf(),
    ensures
        match r {
            Ok(d) => spec_partition(class_model(*class)) == Ok::<DaeModel, ErrorModel>(
                dae_model(d),
            ),
            Err(e) => spec_partition(class_model(*class)) == Err::<DaeModel, ErrorModel>(
                error_model(e),
            ),
        },
{
    let ghost clm = class_model(*class);
    let mut d = Dae {
        p: Vec::new(),
        cp: Vec::new(),
        t: default_time_component(),
        x: Vec::new(),
        x_dot: Vec::new(),
        y: Vec::new(),
        u: Vec::new(),
        pre_z: Vec::new(),
        z: Vec::new(),
        m: Vec::new(),
        c: Vec::new(),
        relation: Vec::new(),
        fx: Vec::new(),
        fz: Vec::new(),
        fm: Vec::new(),
        fc: Vec::new(),
    };
    proof {
        assert(comps_model(d.p@) =~= Seq::<ComponentModel>::empty());
        assert(comps_model(d.cp@) =~= Seq::<ComponentModel>::empty());
        assert(comps_model(d.x@) =~= Seq::<ComponentModel>::empty());
        assert(comps_model(d.x_dot@) =~= Seq::<ComponentModel>::empty());
        assert(comps_model(d.y@) =~= Seq::<ComponentModel>::empty());
        assert(comps_model(d.u@) =~= Seq::<ComponentModel>::empty());
        assert(comps_model(d.pre_z@) =~= Seq::<ComponentModel>::empty());
        assert(comps_model(d.z@) =~= Seq::<ComponentModel>::empty());
        assert(comps_model(d.m@) =~= Seq::<ComponentModel>::empty());
        assert(Seq::new(d.fc@.len(), |i: int| eqs_model(d.fc@[i]@)) =~= Seq::<
            Seq<EquationModel>,
        >::empty());
        assert(dae_model(d) == empty_dae_model());
        assert(clm.components.subrange(0, clm.components.len() as int) =~= clm.components);
    }

    // Classify the components in order.
    let n = class.components.len();
    let mut ci: usize = 0;
    while ci < n
        invariant
            n == class.components.spec_len(),
            class.components.wf(),
            clm == class_model(*class),
            0 <= ci <= n,
            clm.components.len() == n,
            spec_classify(
                clm.components.subrange(ci as int, n as int),
                clm.equations,
                dae_model(d),
            ) == spec_classify(clm.components, clm.equations, empty_dae_model()),
        decreases n - ci,
    {
        let ghost crest = clm.components.subrange(ci as int, n as int);
        proof {
            assert(crest[0] == clm.components[ci as int]);
            assert(clm.components[ci as int].1 == comp_model(
                class.components.val_seq()[ci as int],
            ));
        }
        let comp = class.components.val_at(ci);
        classify_component(comp, &class.equations, &mut d);
        proof {
            assert(crest.subrange(1, crest.len() as int) =~= clm.components.subrange(
                ci + 1,
                n as int,
            ));
        }
        ci += 1;
    }
    proof {
        assert(clm.components.subrange(n as int, n as int) =~= Seq::<
            (Seq<char>, ComponentModel),
        >::empty());
    }
    let ghost d1 = dae_model(d);

    // Route the equations in order.
    let m_names = component_names(&d.m);
    let ghost mv = string_views(m_names@);
    proof {
        lemma_eqs_model(class.equations@);
        assert(clm.equations.subrange(0, clm.equations.len() as int) =~= clm.equations);
    }
    let en = class.equations.len();
    let mut ei: usize = 0;
    while ei < en
        invariant
            en == class.equations@.len(),
            clm == class_model(*class),
            mv == string_views(m_names@),
            mv == comp_names(d1.m),
            0 <= ei <= en,
            clm.equations.len() == en,
            forall|j: int| 0 <= j < en ==> clm.equations[j] == eq_model(class.equations@[j]),
            spec_route(clm.equations.subrange(ei as int, en as int), mv, dae_model(d))
                == spec_route(clm.equations, mv, d1),
        decreases en - ei,
    {
        let ghost erest = clm.equations.subrange(ei as int, en as int);
        let ghost acc_eq = dae_model(d);
        proof {
            assert(erest[0] == clm.equations[ei as int]);
        }
        let eq = &class.equations[ei];
        match eq {
            Equation::When(blocks) => {
                proof {
                    crate::ast::lemma_eq_blocks_model(blocks@);
                    assert(eq_model(*eq) == EquationModel::When(
                        crate::ast::eq_blocks_model(blocks@),
                    ));
                }
                let ghost bm = crate::ast::eq_blocks_model(blocks@);
                proof {
                    assert(bm.subrange(0, bm.len() as int) =~= bm);
                }
                let bn = blocks.len();
                let mut bi: usize = 0;
                while bi < bn
                    invariant
                        bn == blocks@.len(),
                        bm == crate::ast::eq_blocks_model(blocks@),
                        mv == string_views(m_names@),
                        0 <= bi <= bn,
                        bm.len() == bn,
                        forall|j: int|
                            0 <= j < bn ==> bm[j] == crate::ast::eq_block_model(blocks@[j]),
                        spec_route_blocks(bm.subrange(bi as int, bn as int), mv, dae_model(d))
                            == spec_route_blocks(bm, mv, acc_eq),
                    decreases bn - bi,
                {
                    let ghost brest = bm.subrange(bi as int, bn as int);
                    let ghost acc_b = dae_model(d);
                    proof {
                        assert(brest[0] == bm[bi as int]);
                    }
                    let b = &blocks[bi];
                    let ghost before_c = d.c@;
                    d.c.push(b.cond.duplicate());
                    proof {
                        crate::ast::lemma_exprs_model_push(before_c, d.c@[d.c@.len() - 1]);
                        assert(d.c@ == before_c.push(d.c@[d.c@.len() - 1]));
                        assert(crate::ast::exprs_model(d.c@) == crate::ast::exprs_model(
                            before_c,
                        ).push(bm[bi as int].cond));
                    }
                    if expr_is_relation(&b.cond) {
                        let ghost before_r = d.relation@;
                        d.relation.push(b.cond.duplicate());
                        proof {
                            crate::ast::lemma_exprs_model_push(
                                before_r,
                                d.relation@[d.relation@.len() - 1],
                            );
                            assert(crate::ast::exprs_model(d.relation@)
                                == crate::ast::exprs_model(before_r).push(bm[bi as int].cond));
                        }
                    }
                    let ghost before_fc = d.fc@;
                    d.fc.push(crate::ast::duplicate_eqs(&b.eqs));
                    proof {
                        assert(Seq::new(d.fc@.len(), |i: int| eqs_model(d.fc@[i]@)) =~= Seq::new(
                            before_fc.len(),
                            |i: int| eqs_model(before_fc[i]@),
                        ).push(bm[bi as int].eqs));
                        assert(dae_model(d) == (DaeModel {
                            c: acc_b.c.push(bm[bi as int].cond),
                            relation: if cond_is_relation(bm[bi as int].cond) {
                                acc_b.relation.push(bm[bi as int].cond)
                            } else {
                                acc_b.relation
                            },
                            fc: acc_b.fc.push(bm[bi as int].eqs),
                            ..acc_b
                        }));
                        crate::ast::lemma_eqs_model(b.eqs@);
                        assert(bm[bi as int].eqs.subrange(0, bm[bi as int].eqs.len() as int)
                            =~= bm[bi as int].eqs);
                    }
                    let ghost acc1 = dae_model(d);

                    // Route the block body to fz or fm.
                    let ghost beqs = bm[bi as int].eqs;
                    let qn = b.eqs.len();
                    let mut qi: usize = 0;
                    while qi < qn
                        invariant
                            qn == b.eqs@.len(),
                            beqs == eqs_model(b.eqs@),
                            mv == string_views(m_names@),
                            0 <= qi <= qn,
                            beqs.len() == qn,
                            forall|j: int|
                                0 <= j < qn ==> beqs[j] == eq_model(b.eqs@[j]),
                            spec_route_body(
                                beqs.subrange(qi as int, qn as int),
                                mv,
                                dae_model(d),
                            ) == spec_route_body(beqs, mv, acc1),
                        decreases qn - qi,
                    {
                        let ghost qrest = beqs.subrange(qi as int, qn as int);
                        let ghost acc_q = dae_model(d);
                        proof {
                            assert(qrest[0] == beqs[qi as int]);
                        }
                        let beq = &b.eqs[qi];
                        if when_body_eq_is_m(beq, &m_names) {
                            let ghost before = d.fm@;
                            d.fm.push(beq.duplicate());
                            proof {
                                crate::ast::lemma_eqs_model_push(
                                    before,
                                    d.fm@[d.fm@.len() - 1],
                                );
                                assert(eqs_model(d.fm@) == eqs_model(before).push(
                                    beqs[qi as int],
                                ));
                                assert(dae_model(d) == (DaeModel {
                                    fm: acc_q.fm.push(beqs[qi as int]),
                                    ..acc_q
                                }));
                            }
                        } else {
                            let ghost before = d.fz@;
                            d.fz.push(beq.duplicate());
                            proof {
                                crate::ast::lemma_eqs_model_push(
                                    before,
                                    d.fz@[d.fz@.len() - 1],
                                );
                                assert(eqs_model(d.fz@) == eqs_model(before).push(
                                    beqs[qi as int],
                                ));
                                assert(dae_model(d) == (DaeModel {
                                    fz: acc_q.fz.push(beqs[qi as int]),
                                    ..acc_q
                                }));
                            }
                        }
                        proof {
                            assert(qrest.subrange(1, qrest.len() as int) =~= beqs.subrange(
                                qi + 1,
                                qn as int,
                            ));
                        }
                        qi += 1;
                    }
                    proof {
                        assert(beqs.subrange(qn as int, qn as int) =~= Seq::<
                            EquationModel,
                        >::empty());
                        assert(brest.subrange(1, brest.len() as int) =~= bm.subrange(
                            bi + 1,
                            bn as int,
                        ));
                    }
                    bi += 1;
                }
                proof {
                    assert(bm.subrange(bn as int, bn as int) =~= Seq::<
                        EquationBlockModel,
                    >::empty());
                    assert(spec_route_eq(erest[0], mv, acc_eq) == dae_model(d));
                }
            },
            Equation::Connect { .. } => {
                proof {
                    assert(spec_route_eq(erest[0], mv, acc_eq) == dae_model(d));
                }
            },
            _ => {
                let ghost before = d.fx@;
                d.fx.push(eq.duplicate());
                proof {
                    crate::ast::lemma_eqs_model_push(before, d.fx@[d.fx@.len() - 1]);
                    assert(eqs_model(d.fx@) == eqs_model(before).push(erest[0]));
                    assert(dae_model(d) == (DaeModel { fx: acc_eq.fx.push(erest[0]), ..acc_eq }));
                    assert(spec_route_eq(erest[0], mv, acc_eq) == dae_model(d));
                }
            },
        }
        proof {
            assert(erest.subrange(1, erest.len() as int) =~= clm.equations.subrange(
                ei + 1,
                en as int,
            ));
        }
        ei += 1;
    }
    proof {
        assert(clm.equations.subrange(en as int, en as int) =~= Seq::<EquationModel>::empty());
    }
    let ghost d2 = dae_model(d);

    // Gather the allowed names, then check for dangling references.
    let mut allowed: Vec<String> = Vec::new();
    proof {
        assert(string_views(allowed@) =~= Seq::<Seq<char>>::empty());
    }
    push_component_names(&mut allowed, &d.p);
    proof {
        assert(string_views(allowed@) =~= comp_names(d2.p));
    }
    push_component_names(&mut allowed, &d.cp);
    proof {
        assert(string_views(allowed@) =~= comp_names(d2.p) + comp_names(d2.cp));
    }
    let ghost snap1 = string_views(allowed@);
    allowed.push(d.t.name.clone());
    proof {
        assert(string_views(allowed@) =~= snap1 + seq![d2.t.name]);
    }
    push_component_names(&mut allowed, &d.x);
    let ghost snap2 = string_views(allowed@);
    push_component_names(&mut allowed, &d.x_dot);
    let ghost snap3 = string_views(allowed@);
    push_component_names(&mut allowed, &d.y);
    let ghost snap4 = string_views(allowed@);
    push_component_names(&mut allowed, &d.u);
    let ghost snap5 = string_views(allowed@);
    push_component_names(&mut allowed, &d.z);
    let ghost snap6 = string_views(allowed@);
    push_component_names(&mut allowed, &d.pre_z);
    let ghost snap7 = string_views(allowed@);
    push_component_names(&mut allowed, &d.m);
    proof {
        assert(string_views(allowed@) =~= spec_allowed(d2));
    }
    match find_dangling_eqs(&d.fx, &allowed) {
        Some(nm) => {
            return Err(Error::DanglingReference { name: nm });
        },
        None => {},
    }
    match find_dangling_eqs(&d.fz, &allowed) {
        Some(nm) => {
            return Err(Error::DanglingReference { name: nm });
        },
        None => {},
    }
    match find_dangling_eqs(&d.fm, &allowed) {
        Some(nm) => {
            return Err(Error::DanglingReference { name: nm });
        },
        None => {},
    }
    Ok(d)
}

} // verus!
