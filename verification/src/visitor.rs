//! Reference-rewriting passes over equation and expression trees.
//!
//! Both passes walk a tree post-order and rewrite every
//! `ComponentReference` leaf exactly once:
//!
//! * [`ScopePusher`] prefixes unreserved references with a component name,
//!   turning `ident` into `comp.ident`;
//! * [`SubCompNamer`] collapses `comp.sub` into the mangled `comp_sub`.
//!
//! Each executable method is specified by the spec function of the same
//! shape over models (`sp_*` for the pusher, `scn_*` for the namer).

use vstd::prelude::*;
use crate::ast::{
    ComponentRefPart, ComponentRefPartModel, ComponentReference, ComponentReferenceModel,
    Equation, EquationBlock, EquationBlockModel, EquationModel, Expression, ExpressionModel,
    Location, LocationModel, Subscript, SubscriptModel, Token, TokenModel, cref_model,
    cref_part_model, cref_parts_model, duplicate_subscripts, eq_block_model, eq_blocks_model, eq_model, eqs_model,
    expr_model, exprs_model, lemma_cref_parts_model, lemma_eq_blocks_model, lemma_eqs_model,
    lemma_exprs_model, lemma_subscripts_model, subscript_model, subscripts_model,
};

verus! {

/// Token synthesized by a rewriting pass: the given text, no position.
pub open spec fn synthetic_token_model(text: Seq<char>) -> TokenModel {
    TokenModel {
        text,
        location: LocationModel {
            start_line: 0,
            start_column: 0,
            end_line: 0,
            end_column: 0,
            start: 0,
            end: 0,
            file_name: Seq::empty(),
        },
        token_number: 0,
        token_type: 0,
    }
}

/// Builds the token a rewriting pass synthesizes for `text`.
pub fn synthetic_token(text: String) -> (r: Token)
    ensures
        r@ == synthetic_token_model(text@),
{
    Token {
        text,
        location: Location {
            start_line: 0,
            start_column: 0,
            end_line: 0,
            end_column: 0,
            start: 0,
            end: 0,
            file_name: String::new(),
        },
        token_number: 0,
        token_type: 0,
    }
}

/// The character views of a string list.
pub open spec fn string_views(v: Seq<String>) -> Seq<Seq<char>> {
    v.map_values(|s: String| s@)
}

/// Whether `t` occurs in `v`.
pub fn contains_string(v: &Vec<String>, t: &String) -> (r: bool)
    ensures
        r == string_views(v@).contains(t@),
{
    let n = v.len();
    let mut i: usize = 0;
    while i < n
        invariant
            n == v@.len(),
            0 <= i <= n,
            forall|j: int| 0 <= j < i ==> string_views(v@)[j] != t@,
        decreases n - i,
    {
        if v[i].eq(t) {
            assert(string_views(v@)[i as int] == t@);
            return true;
        }
        i += 1;
    }
    proof {
        if string_views(v@).contains(t@) {
            let w = choose|w: int| 0 <= w < string_views(v@).len() && string_views(v@)[w] == t@;
            assert(string_views(v@)[w] != t@);
        }
    }
    false
}

// ---------------------------------------------------------------------------
// ScopePusher
// ---------------------------------------------------------------------------

/// Prefixes unreserved component references with a component name.
///
/// `global_symbols` are reserved identifiers that are never prefixed,
/// `symbols` are names local to the surrounding scope that also bypass
/// prefixing, and `comp` is the prefix to insert.
pub struct ScopePusher {
    pub global_symbols: Vec<String>,
    pub symbols: Vec<String>,
    pub comp: String,
}

pub open spec fn sp_part(
    p: ComponentRefPartModel,
    g: Seq<Seq<char>>,
    sy: Seq<Seq<char>>,
    comp: Seq<char>,
) -> ComponentRefPartModel
    decreases p,
{
    ComponentRefPartModel {
        ident: p.ident,
        subs: match p.subs {
            Some(subs) => Some(sp_subscripts(subs, g, sy, comp)),
            None => None,
        },
    }
}

pub open spec fn sp_parts(
    s: Seq<ComponentRefPartModel>,
    g: Seq<Seq<char>>,
    sy: Seq<Seq<char>>,
    comp: Seq<char>,
) -> Seq<ComponentRefPartModel>
    decreases s,
{
    if s.len() == 0 {
        Seq::empty()
    } else {
        seq![sp_part(s[0], g, sy, comp)] + sp_parts(s.subrange(1, s.len() as int), g, sy, comp)
    }
}

pub open spec fn sp_subscripts(
    s: Seq<SubscriptModel>,
    g: Seq<Seq<char>>,
    sy: Seq<Seq<char>>,
    comp: Seq<char>,
) -> Seq<SubscriptModel>
    decreases s,
{
    if s.len() == 0 {
        Seq::empty()
    } else {
        seq![sp_subscript(s[0], g, sy, comp)] + sp_subscripts(
            s.subrange(1, s.len() as int),
            g,
            sy,
            comp,
        )
    }
}

pub open spec fn sp_subscript(
    s: SubscriptModel,
    g: Seq<Seq<char>>,
    sy: Seq<Seq<char>>,
    comp: Seq<char>,
) -> SubscriptModel
    decreases s,
{
    match s {
        SubscriptModel::Range { token } => SubscriptModel::Range { token },
        SubscriptModel::Expression(e) => SubscriptModel::Expression(sp_expr(e, g, sy, comp)),
    }
}

/// The scope-pushed reference: subscripts rewritten, and when the first
/// part's identifier is neither reserved nor local, `comp` inserted as a
/// new leading part.
pub open spec fn sp_cref(
    c: ComponentReferenceModel,
    g: Seq<Seq<char>>,
    sy: Seq<Seq<char>>,
    comp: Seq<char>,
) -> ComponentReferenceModel
    decreases c,
{
    let parts = sp_parts(c.parts, g, sy, comp);
    if c.parts.len() > 0 && !g.contains(c.parts[0].ident.text) && !sy.contains(
        c.parts[0].ident.text,
    ) {
        ComponentReferenceModel {
            local: c.local,
            parts: seq![
                ComponentRefPartModel { ident: synthetic_token_model(comp), subs: None },
            ] + parts,
        }
    } else {
        ComponentReferenceModel { local: c.local, parts }
    }
}

pub open spec fn sp_expr(
    e: ExpressionModel,
    g: Seq<Seq<char>>,
    sy: Seq<Seq<char>>,
    comp: Seq<char>,
) -> ExpressionModel
    decreases e,
{
    match e {
        ExpressionModel::Empty => ExpressionModel::Empty,
        ExpressionModel::Terminal { terminal_type, token } => ExpressionModel::Terminal {
            terminal_type,
            token,
        },
        ExpressionModel::ComponentReference(c) => ExpressionModel::ComponentReference(
            sp_cref(c, g, sy, comp),
        ),
        ExpressionModel::Unary { op, rhs } => ExpressionModel::Unary {
            op,
            rhs: Box::new(sp_expr(*rhs, g, sy, comp)),
        },
        ExpressionModel::Binary { op, lhs, rhs } => ExpressionModel::Binary {
            op,
            lhs: Box::new(sp_expr(*lhs, g, sy, comp)),
            rhs: Box::new(sp_expr(*rhs, g, sy, comp)),
        },
        ExpressionModel::FunctionCall { comp: callee, args } => ExpressionModel::FunctionCall {
            comp: sp_cref(callee, g, sy, comp),
            args: sp_exprs(args, g, sy, comp),
        },
        ExpressionModel::Range { start, step, end } => ExpressionModel::Range {
            start: Box::new(sp_expr(*start, g, sy, comp)),
            step: match step {
                Some(s) => Some(Box::new(sp_expr(*s, g, sy, comp))),
                None => None,
            },
            end: Box::new(sp_expr(*end, g, sy, comp)),
        },
    }
}

pub open spec fn sp_exprs(
    s: Seq<ExpressionModel>,
    g: Seq<Seq<char>>,
    sy: Seq<Seq<char>>,
    comp: Seq<char>,
) -> Seq<ExpressionModel>
    decreases s,
{
    if s.len() == 0 {
        Seq::empty()
    } else {
        seq![sp_expr(s[0], g, sy, comp)] + sp_exprs(s.subrange(1, s.len() as int), g, sy, comp)
    }
}

pub open spec fn sp_eq(
    e: EquationModel,
    g: Seq<Seq<char>>,
    sy: Seq<Seq<char>>,
    comp: Seq<char>,
) -> EquationModel
    decreases e,
{
    match e {
        EquationModel::Simple { lhs, rhs } => EquationModel::Simple {
            lhs: sp_expr(lhs, g, sy, comp),
            rhs: sp_expr(rhs, g, sy, comp),
        },
        EquationModel::Connect { lhs, rhs } => EquationModel::Connect {
            lhs: sp_cref(lhs, g, sy, comp),
            rhs: sp_cref(rhs, g, sy, comp),
        },
        EquationModel::FunctionCall { comp: callee, args } => EquationModel::FunctionCall {
            comp: sp_cref(callee, g, sy, comp),
            args: sp_exprs(args, g, sy, comp),
        },
        EquationModel::If { cond_blocks, else_block } => EquationModel::If {
            cond_blocks: sp_eq_blocks(cond_blocks, g, sy, comp),
            else_block: match else_block {
                Some(v) => Some(sp_eqs(v, g, sy, comp)),
                None => None,
            },
        },
        EquationModel::When(blocks) => EquationModel::When(sp_eq_blocks(blocks, g, sy, comp)),
    }
}

pub open spec fn sp_eqs(
    s: Seq<EquationModel>,
    g: Seq<Seq<char>>,
    sy: Seq<Seq<char>>,
    comp: Seq<char>,
) -> Seq<EquationModel>
    decreases s,
{
    if s.len() == 0 {
        Seq::empty()
    } else {
        seq![sp_eq(s[0], g, sy, comp)] + sp_eqs(s.subrange(1, s.len() as int), g, sy, comp)
    }
}

pub open spec fn sp_eq_blocks(
    s: Seq<EquationBlockModel>,
    g: Seq<Seq<char>>,
    sy: Seq<Seq<char>>,
    comp: Seq<char>,
) -> Seq<EquationBlockModel>
    decreases s,
{
    if s.len() == 0 {
        Seq::empty()
    } else {
        seq![
            EquationBlockModel {
                cond: sp_expr(s[0].cond, g, sy, comp),
                eqs: sp_eqs(s[0].eqs, g, sy, comp),
            },
        ] + sp_eq_blocks(s.subrange(1, s.len() as int), g, sy, comp)
    }
}

impl ScopePusher {
    pub open spec fn g(&self) -> Seq<Seq<char>> {
        string_views(self.global_symbols@)
    }

    pub open spec fn sy(&self) -> Seq<Seq<char>> {
        string_views(self.symbols@)
    }

    pub fn apply_subscripts(&self, v: &Vec<Subscript>) -> (r: Vec<Subscript>)
        ensures
            subscripts_model(r@) == sp_subscripts(
                subscripts_model(v@),
                self.g(),
                self.sy(),
                self.comp@,
            ),
        decreases v@,
    {
        let n = v.len();
        let mut r: Vec<Subscript> = Vec::new();
        let mut i: usize = 0;
        while i < n
            invariant
                n == v@.len(),
                0 <= i <= n,
                r@.len() == i,
                forall|j: int|
                    0 <= j < i ==> subscript_model(r@[j]) == sp_subscript(
                        subscript_model(v@[j]),
                        self.g(),
                        self.sy(),
                        self.comp@,
                    ),
            decreases n - i,
        {
            let s = &v[i];
            let out = match s {
                Subscript::Range { token } => Subscript::Range { token: token.duplicate() },
                Subscript::Expression(e) => Subscript::Expression(self.apply_expr(e)),
            };
            r.push(out);
            i += 1;
        }
        proof {
            lemma_subscripts_model(r@);
            lemma_subscripts_model(v@);
            lemma_sp_subscripts_elementwise(subscripts_model(v@), self.g(), self.sy(), self.comp@);
            assert(subscripts_model(r@) =~= sp_subscripts(
                subscripts_model(v@),
                self.g(),
                self.sy(),
                self.comp@,
            ));
        }
        r
    }

    pub fn apply_cref(&self, c: &ComponentReference) -> (r: ComponentReference)
        ensures
            cref_model(r) == sp_cref(cref_model(*c), self.g(), self.sy(), self.comp@),
        decreases *c,
    {
        let n = c.parts.len();
        let mut parts: Vec<ComponentRefPart> = Vec::new();
        let mut i: usize = 0;
        while i < n
            invariant
                n == c.parts@.len(),
                0 <= i <= n,
                parts@.len() == i,
                forall|j: int|
                    0 <= j < i ==> cref_part_model(parts@[j]) == sp_part(
                        cref_part_model(c.parts@[j]),
                        self.g(),
                        self.sy(),
                        self.comp@,
                    ),
                decreases_to!(*c => c.parts@),
            decreases n - i,
        {
            proof {
                assert(decreases_to!(c.parts@ => c.parts@[i as int]));
            }
            let p = &c.parts[i];
            let subs = match &p.subs {
                Some(v) => {
                    proof {
                        assert(decreases_to!(*p => p.subs));
                        assert(decreases_to!(p.subs => *v));
                        assert(decreases_to!(*v => v@));
                    }
                    Some(self.apply_subscripts(v))
                },
                None => None,
            };
            parts.push(ComponentRefPart { ident: p.ident.duplicate(), subs });
            i += 1;
        }
        proof {
            lemma_cref_parts_model(parts@);
            lemma_cref_parts_model(c.parts@);
            lemma_sp_parts_elementwise(cref_parts_model(c.parts@), self.g(), self.sy(), self.comp@);
            assert(cref_parts_model(parts@) =~= sp_parts(
                cref_parts_model(c.parts@),
                self.g(),
                self.sy(),
                self.comp@,
            ));
        }
        let prefix = if c.parts.len() > 0 {
            let first_text = &c.parts[0].ident.text;
            !contains_string(&self.global_symbols, first_text) && !contains_string(
                &self.symbols,
                first_text,
            )
        } else {
            false
        };
        if prefix {
            let mut out_parts: Vec<ComponentRefPart> = Vec::new();
            out_parts.push(
                ComponentRefPart { ident: synthetic_token(self.comp.clone()), subs: None },
            );
            let mut k: usize = 0;
            let m = parts.len();
            while k < m
                invariant
                    m == parts@.len(),
                    0 <= k <= m,
                    out_parts@.len() == k + 1,
                    cref_part_model(out_parts@[0]) == (ComponentRefPartModel {
                        ident: synthetic_token_model(self.comp@),
                        subs: None::<Seq<SubscriptModel>>,
                    }),
                    forall|j: int|
                        0 <= j < k ==> cref_part_model(out_parts@[j + 1]) == cref_part_model(
                            parts@[j],
                        ),
                decreases m - k,
            {
                out_parts.push(parts[k].duplicate());
                k += 1;
            }
            proof {
                lemma_cref_parts_model(out_parts@);
                lemma_cref_parts_model(parts@);
                assert(cref_parts_model(out_parts@) =~= seq![
                    ComponentRefPartModel {
                        ident: synthetic_token_model(self.comp@),
                        subs: None::<Seq<SubscriptModel>>,
                    },
                ] + cref_parts_model(parts@));
            }
            ComponentReference { local: c.local, parts: out_parts }
        } else {
            ComponentReference { local: c.local, parts }
        }
    }

    pub fn apply_expr(&self, e: &Expression) -> (r: Expression)
        ensures
            expr_model(r) == sp_expr(expr_model(*e), self.g(), self.sy(), self.comp@),
        decreases *e,
    {
        match e {
            Expression::Empty => Expression::Empty,
            Expression::Terminal { terminal_type, token } => Expression::Terminal {
                terminal_type: *terminal_type,
                token: token.duplicate(),
            },
            Expression::ComponentReference(c) => Expression::ComponentReference(
                self.apply_cref(c),
            ),
            Expression::Unary { op, rhs } => Expression::Unary {
                op: op.duplicate(),
                rhs: Box::new(self.apply_expr(rhs)),
            },
            Expression::Binary { op, lhs, rhs } => Expression::Binary {
                op: op.duplicate(),
                lhs: Box::new(self.apply_expr(lhs)),
                rhs: Box::new(self.apply_expr(rhs)),
            },
            Expression::FunctionCall { comp, args } => Expression::FunctionCall {
                comp: self.apply_cref(comp),
                args: self.apply_exprs(args),
            },
            Expression::Range { start, step, end } => Expression::Range {
                start: Box::new(self.apply_expr(start)),
                step: match step {
                    Some(s) => {
                        proof {
                            assert(decreases_to!(*e => *step));
                            assert(decreases_to!(*step => **s));
                        }
                        Some(Box::new(self.apply_expr(s)))
                    },
                    None => None,
                },
                end: Box::new(self.apply_expr(end)),
            },
        }
    }

    pub fn apply_exprs(&self, v: &Vec<Expression>) -> (r: Vec<Expression>)
        ensures
            exprs_model(r@) == sp_exprs(exprs_model(v@), self.g(), self.sy(), self.comp@),
        decreases v@,
    {
        let n = v.len();
        let mut r: Vec<Expression> = Vec::new();
        let mut i: usize = 0;
        while i < n
            invariant
                n == v@.len(),
                0 <= i <= n,
                r@.len() == i,
                forall|j: int|
                    0 <= j < i ==> expr_model(r@[j]) == sp_expr(
                        expr_model(v@[j]),
                        self.g(),
                        self.sy(),
                        self.comp@,
                    ),
            decreases n - i,
        {
            r.push(self.apply_expr(&v[i]));
            i += 1;
        }
        proof {
            lemma_exprs_model(r@);
            lemma_exprs_model(v@);
            lemma_sp_exprs_elementwise(exprs_model(v@), self.g(), self.sy(), self.comp@);
            assert(exprs_model(r@) =~= sp_exprs(
                exprs_model(v@),
                self.g(),
                self.sy(),
                self.comp@,
            ));
        }
        r
    }

    pub fn apply_eq(&self, e: &Equation) -> (r: Equation)
        ensures
            eq_model(r) == sp_eq(eq_model(*e), self.g(), self.sy(), self.comp@),
        decreases *e,
    {
        match e {
            Equation::Simple { lhs, rhs } => Equation::Simple {
                lhs: self.apply_expr(lhs),
                rhs: self.apply_expr(rhs),
            },
            Equation::Connect { lhs, rhs } => Equation::Connect {
                lhs: self.apply_cref(lhs),
                rhs: self.apply_cref(rhs),
            },
            Equation::FunctionCall { comp, args } => Equation::FunctionCall {
                comp: self.apply_cref(comp),
                args: self.apply_exprs(args),
            },
            Equation::If { cond_blocks, else_block } => Equation::If {
                cond_blocks: self.apply_eq_blocks(cond_blocks),
                else_block: match else_block {
                    Some(v) => {
                        proof {
                            assert(decreases_to!(*e => *else_block));
                            assert(decreases_to!(*else_block => *v));
                            assert(decreases_to!(*v => v@));
                        }
                        Some(self.apply_eqs(v))
                    },
                    None => None,
                },
            },
            Equation::When(blocks) => Equation::When(self.apply_eq_blocks(blocks)),
        }
    }

    pub fn apply_eqs(&self, v: &Vec<Equation>) -> (r: Vec<Equation>)
        ensures
            eqs_model(r@) == sp_eqs(eqs_model(v@), self.g(), self.sy(), self.comp@),
        decreases v@,
    {
        let n = v.len();
        let mut r: Vec<Equation> = Vec::new();
        let mut i: usize = 0;
        while i < n
            invariant
                n == v@.len(),
                0 <= i <= n,
                r@.len() == i,
                forall|j: int|
                    0 <= j < i ==> eq_model(r@[j]) == sp_eq(
                        eq_model(v@[j]),
                        self.g(),
                        self.sy(),
                        self.comp@,
                    ),
            decreases n - i,
        {
            r.push(self.apply_eq(&v[i]));
            i += 1;
        }
        proof {
            lemma_eqs_model(r@);
            lemma_eqs_model(v@);
            lemma_sp_eqs_elementwise(eqs_model(v@), self.g(), self.sy(), self.comp@);
            assert(eqs_model(r@) =~= sp_eqs(eqs_model(v@), self.g(), self.sy(), self.comp@));
        }
        r
    }

    pub fn apply_eq_blocks(&self, v: &Vec<EquationBlock>) -> (r: Vec<EquationBlock>)
        ensures
            eq_blocks_model(r@) == sp_eq_blocks(
                eq_blocks_model(v@),
                self.g(),
                self.sy(),
                self.comp@,
            ),
        decreases v@,
    {
        let n = v.len();
        let mut r: Vec<EquationBlock> = Vec::new();
        let mut i: usize = 0;
        while i < n
            invariant
                n == v@.len(),
                0 <= i <= n,
                r@.len() == i,
                forall|j: int|
                    0 <= j < i ==> eq_block_model(r@[j]) == (EquationBlockModel {
                        cond: sp_expr(
                            eq_block_model(v@[j]).cond,
                            self.g(),
                            self.sy(),
                            self.comp@,
                        ),
                        eqs: sp_eqs(eq_block_model(v@[j]).eqs, self.g(), self.sy(), self.comp@),
                    }),
            decreases n - i,
        {
            let b = &v[i];
            proof {
                assert(decreases_to!(v@[i as int] => v@[i as int].eqs));
                assert(decreases_to!(v@[i as int].eqs => v@[i as int].eqs@));
            }
            r.push(EquationBlock { cond: self.apply_expr(&b.cond), eqs: self.apply_eqs(&b.eqs) });
            i += 1;
        }
        proof {
            lemma_eq_blocks_model(r@);
            lemma_eq_blocks_model(v@);
            lemma_sp_eq_blocks_elementwise(eq_blocks_model(v@), self.g(), self.sy(), self.comp@);
            assert(eq_blocks_model(r@) =~= sp_eq_blocks(
                eq_blocks_model(v@),
                self.g(),
                self.sy(),
                self.comp@,
            ));
        }
        r
    }
}

// ---------------------------------------------------------------------------
// SubCompNamer
// ---------------------------------------------------------------------------

/// Collapses references through the expanded component `comp`: every
/// reference `comp.sub...` becomes `comp_sub...`.
pub struct SubCompNamer {
    pub comp: String,
}

pub open spec fn scn_part(p: ComponentRefPartModel, comp: Seq<char>) -> ComponentRefPartModel
    decreases p,
{
    ComponentRefPartModel {
        ident: p.ident,
        subs: match p.subs {
            Some(subs) => Some(scn_subscripts(subs, comp)),
            None => None,
        },
    }
}

pub open spec fn scn_parts(s: Seq<ComponentRefPartModel>, comp: Seq<char>) -> Seq<
    ComponentRefPartModel,
>
    decreases s,
{
    if s.len() == 0 {
        Seq::empty()
    } else {
        seq![scn_part(s[0], comp)] + scn_parts(s.subrange(1, s.len() as int), comp)
    }
}

pub open spec fn scn_subscripts(s: Seq<SubscriptModel>, comp: Seq<char>) -> Seq<SubscriptModel>
    decreases s,
{
    if s.len() == 0 {
        Seq::empty()
    } else {
        seq![scn_subscript(s[0], comp)] + scn_subscripts(s.subrange(1, s.len() as int), comp)
    }
}

pub open spec fn scn_subscript(s: SubscriptModel, comp: Seq<char>) -> SubscriptModel
    decreases s,
{
    match s {
        SubscriptModel::Range { token } => SubscriptModel::Range { token },
        SubscriptModel::Expression(e) => SubscriptModel::Expression(scn_expr(e, comp)),
    }
}

/// The part that stands for `comp.sub` after collapsing: the identifier
/// `comp_sub` under the second part's token position, keeping the second
/// part's subscripts.
pub open spec fn scn_collapsed(
    first: ComponentRefPartModel,
    second: ComponentRefPartModel,
    comp: Seq<char>,
) -> ComponentRefPartModel {
    ComponentRefPartModel {
        ident: TokenModel {
            text: comp + seq!['_'] + second.ident.text,
            location: second.ident.location,
            token_number: second.ident.token_number,
            token_type: second.ident.token_type,
        },
        subs: second.subs,
    }
}

/// The renamed reference: subscripts rewritten, and when the first part
/// is `comp` and more parts follow, the first two parts collapsed into
/// one mangled identifier.
pub open spec fn scn_cref(c: ComponentReferenceModel, comp: Seq<char>) -> ComponentReferenceModel
    decreases c,
{
    let parts = scn_parts(c.parts, comp);
    if c.parts.len() >= 2 && c.parts[0].ident.text == comp {
        ComponentReferenceModel {
            local: c.local,
            parts: seq![scn_collapsed(parts[0], parts[1], comp)] + parts.subrange(
                2,
                parts.len() as int,
            ),
        }
    } else {
        ComponentReferenceModel { local: c.local, parts }
    }
}

pub open spec fn scn_expr(e: ExpressionModel, comp: Seq<char>) -> ExpressionModel
    decreases e,
{
    match e {
        ExpressionModel::Empty => ExpressionModel::Empty,
        ExpressionModel::Terminal { terminal_type, token } => ExpressionModel::Terminal {
            terminal_type,
            token,
        },
        ExpressionModel::ComponentReference(c) => ExpressionModel::ComponentReference(
            scn_cref(c, comp),
        ),
        ExpressionModel::Unary { op, rhs } => ExpressionModel::Unary {
            op,
            rhs: Box::new(scn_expr(*rhs, comp)),
        },
        ExpressionModel::Binary { op, lhs, rhs } => ExpressionModel::Binary {
            op,
            lhs: Box::new(scn_expr(*lhs, comp)),
            rhs: Box::new(scn_expr(*rhs, comp)),
        },
        ExpressionModel::FunctionCall { comp: callee, args } => ExpressionModel::FunctionCall {
            comp: scn_cref(callee, comp),
            args: scn_exprs(args, comp),
        },
        ExpressionModel::Range { start, step, end } => ExpressionModel::Range {
            start: Box::new(scn_expr(*start, comp)),
            step: match step {
                Some(s) => Some(Box::new(scn_expr(*s, comp))),
                None => None,
            },
            end: Box::new(scn_expr(*end, comp)),
        },
    }
}

pub open spec fn scn_exprs(s: Seq<ExpressionModel>, comp: Seq<char>) -> Seq<ExpressionModel>
    decreases s,
{
    if s.len() == 0 {
        Seq::empty()
    } else {
        seq![scn_expr(s[0], comp)] + scn_exprs(s.subrange(1, s.len() as int), comp)
    }
}

pub open spec fn scn_eq(e: EquationModel, comp: Seq<char>) -> EquationModel
    decreases e,
{
    match e {
        EquationModel::Simple { lhs, rhs } => EquationModel::Simple {
            lhs: scn_expr(lhs, comp),
            rhs: scn_expr(rhs, comp),
        },
        EquationModel::Connect { lhs, rhs } => EquationModel::Connect {
            lhs: scn_cref(lhs, comp),
            rhs: scn_cref(rhs, comp),
        },
        EquationModel::FunctionCall { comp: callee, args } => EquationModel::FunctionCall {
            comp: scn_cref(callee, comp),
            args: scn_exprs(args, comp),
        },
        EquationModel::If { cond_blocks, else_block } => EquationModel::If {
            cond_blocks: scn_eq_blocks(cond_blocks, comp),
            else_block: match else_block {
                Some(v) => Some(scn_eqs(v, comp)),
                None => None,
            },
        },
        EquationModel::When(blocks) => EquationModel::When(scn_eq_blocks(blocks, comp)),
    }
}

pub open spec fn scn_eqs(s: Seq<EquationModel>, comp: Seq<char>) -> Seq<EquationModel>
    decreases s,
{
    if s.len() == 0 {
        Seq::empty()
    } else {
        seq![scn_eq(s[0], comp)] + scn_eqs(s.subrange(1, s.len() as int), comp)
    }
}

pub open spec fn scn_eq_blocks(s: Seq<EquationBlockModel>, comp: Seq<char>) -> Seq<
    EquationBlockModel,
>
    decreases s,
{
    if s.len() == 0 {
        Seq::empty()
    } else {
        seq![
            EquationBlockModel { cond: scn_expr(s[0].cond, comp), eqs: scn_eqs(s[0].eqs, comp) },
        ] + scn_eq_blocks(s.subrange(1, s.len() as int), comp)
    }
}

impl SubCompNamer {
    pub fn apply_subscripts(&self, v: &Vec<Subscript>) -> (r: Vec<Subscript>)
        ensures
            subscripts_model(r@) == scn_subscripts(subscripts_model(v@), self.comp@),
        decreases v@,
    {
        let n = v.len();
        let mut r: Vec<Subscript> = Vec::new();
        let mut i: usize = 0;
        while i < n
            invariant
                n == v@.len(),
                0 <= i <= n,
                r@.len() == i,
                forall|j: int|
                    0 <= j < i ==> subscript_model(r@[j]) == scn_subscript(
                        subscript_model(v@[j]),
                        self.comp@,
                    ),
            decreases n - i,
        {
            let s = &v[i];
            let out = match s {
                Subscript::Range { token } => Subscript::Range { token: token.duplicate() },
                Subscript::Expression(e) => Subscript::Expression(self.apply_expr(e)),
            };
            r.push(out);
            i += 1;
        }
        proof {
            lemma_subscripts_model(r@);
            lemma_subscripts_model(v@);
            lemma_scn_subscripts_elementwise(subscripts_model(v@), self.comp@);
            assert(subscripts_model(r@) =~= scn_subscripts(subscripts_model(v@), self.comp@));
        }
        r
    }

    fn apply_part(&self, p: &ComponentRefPart) -> (r: ComponentRefPart)
        ensures
            cref_part_model(r) == scn_part(cref_part_model(*p), self.comp@),
        decreases *p,
    {
        ComponentRefPart {
            ident: p.ident.duplicate(),
            subs: match &p.subs {
                Some(v) => {
                    proof {
                        assert(decreases_to!(*p => p.subs));
                        assert(decreases_to!(p.subs => *v));
                        assert(decreases_to!(*v => v@));
                    }
                    Some(self.apply_subscripts(v))
                },
                None => None,
            },
        }
    }

    pub fn apply_cref(&self, c: &ComponentReference) -> (r: ComponentReference)
        ensures
            cref_model(r) == scn_cref(cref_model(*c), self.comp@),
        decreases *c,
    {
        let n = c.parts.len();
        let mut parts: Vec<ComponentRefPart> = Vec::new();
        let mut i: usize = 0;
        while i < n
            invariant
                n == c.parts@.len(),
                0 <= i <= n,
                parts@.len() == i,
                forall|j: int|
                    0 <= j < i ==> cref_part_model(parts@[j]) == scn_part(
                        cref_part_model(c.parts@[j]),
                        self.comp@,
                    ),
                decreases_to!(*c => c.parts@),
            decreases n - i,
        {
            proof {
                assert(decreases_to!(c.parts@ => c.parts@[i as int]));
            }
            parts.push(self.apply_part(&c.parts[i]));
            i += 1;
        }
        proof {
            lemma_cref_parts_model(parts@);
            lemma_cref_parts_model(c.parts@);
            lemma_scn_parts_elementwise(cref_parts_model(c.parts@), self.comp@);
            assert(cref_parts_model(parts@) =~= scn_parts(cref_parts_model(c.parts@), self.comp@));
        }
        let collapse = n >= 2 && c.parts[0].ident.text.eq(&self.comp);
        if collapse {
            let second = &parts[1];
            let mut text = self.comp.clone();
            text.append("_");
            text.append(second.ident.text.as_str());
            proof {
                reveal_strlit("_");
                assert(text@ =~= self.comp@ + seq!['_'] + second.ident.text@);
            }
            let head = ComponentRefPart {
                ident: Token {
                    text,
                    location: second.ident.location.duplicate(),
                    token_number: second.ident.token_number,
                    token_type: second.ident.token_type,
                },
                subs: match &second.subs {
                    Some(v) => Some(crate::ast::duplicate_subscripts(v)),
                    None => None,
                },
            };
            let mut out_parts: Vec<ComponentRefPart> = Vec::new();
            let ghost spec_parts = scn_parts(cref_parts_model(c.parts@), self.comp@);
            out_parts.push(head);
            proof {
                assert(cref_part_model(out_parts@[0]) == scn_collapsed(
                    spec_parts[0],
                    spec_parts[1],
                    self.comp@,
                ));
            }
            let mut k: usize = 2;
            while k < n
                invariant
                    n == parts@.len(),
                    2 <= k <= n || (n < 2 && k == 2),
                    out_parts@.len() == k - 1,
                    cref_part_model(out_parts@[0]) == scn_collapsed(
                        spec_parts[0],
                        spec_parts[1],
                        self.comp@,
                    ),
                    spec_parts.len() == n,
                    forall|j: int|
                        0 <= j < n ==> cref_part_model(parts@[j]) == spec_parts[j],
                    forall|j: int|
                        1 <= j < k - 1 ==> cref_part_model(out_parts@[j]) == spec_parts[j + 1],
                decreases n - k,
            {
                out_parts.push(parts[k].duplicate());
                k += 1;
            }
            proof {
                lemma_cref_parts_model(out_parts@);
                assert(cref_parts_model(out_parts@) =~= seq![
                    scn_collapsed(spec_parts[0], spec_parts[1], self.comp@),
                ] + spec_parts.subrange(2, spec_parts.len() as int));
            }
            ComponentReference { local: c.local, parts: out_parts }
        } else {
            ComponentReference { local: c.local, parts }
        }
    }

    pub fn apply_expr(&self, e: &Expression) -> (r: Expression)
        ensures
            expr_model(r) == scn_expr(expr_model(*e), self.comp@),
        decreases *e,
    {
        match e {
            Expression::Empty => Expression::Empty,
            Expression::Terminal { terminal_type, token } => Expression::Terminal {
                terminal_type: *terminal_type,
                token: token.duplicate(),
            },
            Expression::ComponentReference(c) => Expression::ComponentReference(
                self.apply_cref(c),
            ),
            Expression::Unary { op, rhs } => Expression::Unary {
                op: op.duplicate(),
                rhs: Box::new(self.apply_expr(rhs)),
            },
            Expression::Binary { op, lhs, rhs } => Expression::Binary {
                op: op.duplicate(),
                lhs: Box::new(self.apply_expr(lhs)),
                rhs: Box::new(self.apply_expr(rhs)),
            },
            Expression::FunctionCall { comp, args } => Expression::FunctionCall {
                comp: self.apply_cref(comp),
                args: self.apply_exprs(args),
            },
            Expression::Range { start, step, end } => Expression::Range {
                start: Box::new(self.apply_expr(start)),
                step: match step {
                    Some(s) => {
                        proof {
                            assert(decreases_to!(*e => *step));
                            assert(decreases_to!(*step => **s));
                        }
                        Some(Box::new(self.apply_expr(s)))
                    },
                    None => None,
                },
                end: Box::new(self.apply_expr(end)),
            },
        }
    }

    pub fn apply_exprs(&self, v: &Vec<Expression>) -> (r: Vec<Expression>)
        ensures
            exprs_model(r@) == scn_exprs(exprs_model(v@), self.comp@),
        decreases v@,
    {
        let n = v.len();
        let mut r: Vec<Expression> = Vec::new();
        let mut i: usize = 0;
        while i < n
            invariant
                n == v@.len(),
                0 <= i <= n,
                r@.len() == i,
                forall|j: int|
                    0 <= j < i ==> expr_model(r@[j]) == scn_expr(expr_model(v@[j]), self.comp@),
            decreases n - i,
        {
            r.push(self.apply_expr(&v[i]));
            i += 1;
        }
        proof {
            lemma_exprs_model(r@);
            lemma_exprs_model(v@);
            lemma_scn_exprs_elementwise(exprs_model(v@), self.comp@);
            assert(exprs_model(r@) =~= scn_exprs(exprs_model(v@), self.comp@));
        }
        r
    }

    pub fn apply_eq(&self, e: &Equation) -> (r: Equation)
        ensures
            eq_model(r) == scn_eq(eq_model(*e), self.comp@),
        decreases *e,
    {
        match e {
            Equation::Simple { lhs, rhs } => Equation::Simple {
                lhs: self.apply_expr(lhs),
                rhs: self.apply_expr(rhs),
            },
            Equation::Connect { lhs, rhs } => Equation::Connect {
                lhs: self.apply_cref(lhs),
                rhs: self.apply_cref(rhs),
            },
            Equation::FunctionCall { comp, args } => Equation::FunctionCall {
                comp: self.apply_cref(comp),
                args: self.apply_exprs(args),
            },
            Equation::If { cond_blocks, else_block } => Equation::If {
                cond_blocks: self.apply_eq_blocks(cond_blocks),
                else_block: match else_block {
                    Some(v) => {
                        proof {
                            assert(decreases_to!(*e => *else_block));
                            assert(decreases_to!(*else_block => *v));
                            assert(decreases_to!(*v => v@));
                        }
                        Some(self.apply_eqs(v))
                    },
                    None => None,
                },
            },
            Equation::When(blocks) => Equation::When(self.apply_eq_blocks(blocks)),
        }
    }

    pub fn apply_eqs(&self, v: &Vec<Equation>) -> (r: Vec<Equation>)
        ensures
            eqs_model(r@) == scn_eqs(eqs_model(v@), self.comp@),
        decreases v@,
    {
        let n = v.len();
        let mut r: Vec<Equation> = Vec::new();
        let mut i: usize = 0;
        while i < n
            invariant
                n == v@.len(),
                0 <= i <= n,
                r@.len() == i,
                forall|j: int|
                    0 <= j < i ==> eq_model(r@[j]) == scn_eq(eq_model(v@[j]), self.comp@),
            decreases n - i,
        {
            r.push(self.apply_eq(&v[i]));
            i += 1;
        }
        proof {
            lemma_eqs_model(r@);
            lemma_eqs_model(v@);
            lemma_scn_eqs_elementwise(eqs_model(v@), self.comp@);
            assert(eqs_model(r@) =~= scn_eqs(eqs_model(v@), self.comp@));
        }
        r
    }

    pub fn apply_eq_blocks(&self, v: &Vec<EquationBlock>) -> (r: Vec<EquationBlock>)
        ensures
            eq_blocks_model(r@) == scn_eq_blocks(eq_blocks_model(v@), self.comp@),
        decreases v@,
    {
        let n = v.len();
        let mut r: Vec<EquationBlock> = Vec::new();
        let mut i: usize = 0;
        while i < n
            invariant
                n == v@.len(),
                0 <= i <= n,
                r@.len() == i,
                forall|j: int|
                    0 <= j < i ==> eq_block_model(r@[j]) == (EquationBlockModel {
                        cond: scn_expr(eq_block_model(v@[j]).cond, self.comp@),
                        eqs: scn_eqs(eq_block_model(v@[j]).eqs, self.comp@),
                    }),
            decreases n - i,
        {
            let b = &v[i];
            proof {
                assert(decreases_to!(v@[i as int] => v@[i as int].eqs));
                assert(decreases_to!(v@[i as int].eqs => v@[i as int].eqs@));
            }
            r.push(EquationBlock { cond: self.apply_expr(&b.cond), eqs: self.apply_eqs(&b.eqs) });
            i += 1;
        }
        proof {
            lemma_eq_blocks_model(r@);
            lemma_eq_blocks_model(v@);
            lemma_scn_eq_blocks_elementwise(eq_blocks_model(v@), self.comp@);
            assert(eq_blocks_model(r@) =~= scn_eq_blocks(eq_blocks_model(v@), self.comp@));
        }
        r
    }
}

pub proof fn lemma_scn_subscripts_elementwise(s: Seq<SubscriptModel>, comp: Seq<char>)
    ensures
        scn_subscripts(s, comp).len() == s.len(),
        forall|i: int| 0 <= i < s.len() ==> scn_subscripts(s, comp)[i] == scn_subscript(
            s[i],
            comp,
        ),
    decreases s,
{
    if s.len() > 0 {
        lemma_scn_subscripts_elementwise(s.subrange(1, s.len() as int), comp);
    }
}

pub proof fn lemma_scn_parts_elementwise(s: Seq<ComponentRefPartModel>, comp: Seq<char>)
    ensures
        scn_parts(s, comp).len() == s.len(),
        forall|i: int| 0 <= i < s.len() ==> scn_parts(s, comp)[i] == scn_part(s[i], comp),
    decreases s,
{
    if s.len() > 0 {
        lemma_scn_parts_elementwise(s.subrange(1, s.len() as int), comp);
    }
}

pub proof fn lemma_scn_exprs_elementwise(s: Seq<ExpressionModel>, comp: Seq<char>)
    ensures
        scn_exprs(s, comp).len() == s.len(),
        forall|i: int| 0 <= i < s.len() ==> scn_exprs(s, comp)[i] == scn_expr(s[i], comp),
    decreases s,
{
    if s.len() > 0 {
        lemma_scn_exprs_elementwise(s.subrange(1, s.len() as int), comp);
    }
}

pub proof fn lemma_scn_eqs_elementwise(s: Seq<EquationModel>, comp: Seq<char>)
    ensures
        scn_eqs(s, comp).len() == s.len(),
        forall|i: int| 0 <= i < s.len() ==> scn_eqs(s, comp)[i] == scn_eq(s[i], comp),
    decreases s,
{
    if s.len() > 0 {
        lemma_scn_eqs_elementwise(s.subrange(1, s.len() as int), comp);
    }
}

pub proof fn lemma_scn_eq_blocks_elementwise(s: Seq<EquationBlockModel>, comp: Seq<char>)
    ensures
        scn_eq_blocks(s, comp).len() == s.len(),
        forall|i: int|
            0 <= i < s.len() ==> scn_eq_blocks(s, comp)[i] == (EquationBlockModel {
                cond: scn_expr(s[i].cond, comp),
                eqs: scn_eqs(s[i].eqs, comp),
            }),
    decreases s,
{
    if s.len() > 0 {
        lemma_scn_eq_blocks_elementwise(s.subrange(1, s.len() as int), comp);
    }
}

// Element-wise characterizations of the list rewrites.

pub proof fn lemma_sp_subscripts_elementwise(
    s: Seq<SubscriptModel>,
    g: Seq<Seq<char>>,
    sy: Seq<Seq<char>>,
    comp: Seq<char>,
)
    ensures
        sp_subscripts(s, g, sy, comp).len() == s.len(),
        forall|i: int|
            0 <= i < s.len() ==> sp_subscripts(s, g, sy, comp)[i] == sp_subscript(
                s[i],
                g,
                sy,
                comp,
            ),
    decreases s,
{
    if s.len() > 0 {
        lemma_sp_subscripts_elementwise(s.subrange(1, s.len() as int), g, sy, comp);
    }
}

pub proof fn lemma_sp_parts_elementwise(
    s: Seq<ComponentRefPartModel>,
    g: Seq<Seq<char>>,
    sy: Seq<Seq<char>>,
    comp: Seq<char>,
)
    ensures
        sp_parts(s, g, sy, comp).len() == s.len(),
        forall|i: int|
            0 <= i < s.len() ==> sp_parts(s, g, sy, comp)[i] == sp_part(s[i], g, sy, comp),
    decreases s,
{
    if s.len() > 0 {
        lemma_sp_parts_elementwise(s.subrange(1, s.len() as int), g, sy, comp);
    }
}

pub proof fn lemma_sp_exprs_elementwise(
    s: Seq<ExpressionModel>,
    g: Seq<Seq<char>>,
    sy: Seq<Seq<char>>,
    comp: Seq<char>,
)
    ensures
        sp_exprs(s, g, sy, comp).len() == s.len(),
        forall|i: int|
            0 <= i < s.len() ==> sp_exprs(s, g, sy, comp)[i] == sp_expr(s[i], g, sy, comp),
    decreases s,
{
    if s.len() > 0 {
        lemma_sp_exprs_elementwise(s.subrange(1, s.len() as int), g, sy, comp);
    }
}

pub proof fn lemma_sp_eqs_elementwise(
    s: Seq<EquationModel>,
    g: Seq<Seq<char>>,
    sy: Seq<Seq<char>>,
    comp: Seq<char>,
)
    ensures
        sp_eqs(s, g, sy, comp).len() == s.len(),
        forall|i: int| 0 <= i < s.len() ==> sp_eqs(s, g, sy, comp)[i] == sp_eq(s[i], g, sy, comp),
    decreases s,
{
    if s.len() > 0 {
        lemma_sp_eqs_elementwise(s.subrange(1, s.len() as int), g, sy, comp);
    }
}

pub proof fn lemma_sp_eq_blocks_elementwise(
    s: Seq<EquationBlockModel>,
    g: Seq<Seq<char>>,
    sy: Seq<Seq<char>>,
    comp: Seq<char>,
)
    ensures
        sp_eq_blocks(s, g, sy, comp).len() == s.len(),
        forall|i: int|
            0 <= i < s.len() ==> sp_eq_blocks(s, g, sy, comp)[i] == (EquationBlockModel {
                cond: sp_expr(s[i].cond, g, sy, comp),
                eqs: sp_eqs(s[i].eqs, g, sy, comp),
            }),
    decreases s,
{
    if s.len() > 0 {
        lemma_sp_eq_blocks_elementwise(s.subrange(1, s.len() as int), g, sy, comp);
    }
}

// ---------------------------------------------------------------------------
// What collapsing establishes
//
// After `scn_*` with component name `comp`, no reference in the result
// retains `comp`'s dotted form: wherever `comp.sub` stood, a single
// mangled identifier stands.
// ---------------------------------------------------------------------------

/// No reference in the part's subscripts retains `comp`'s dotted form.
pub open spec fn part_free_of(p: ComponentRefPartModel, comp: Seq<char>) -> bool
    decreases p,
{
    match p.subs {
        None => true,
        Some(subs) => subs_free_of(subs, comp),
    }
}

pub open spec fn subs_free_of(s: Seq<SubscriptModel>, comp: Seq<char>) -> bool
    decreases s,
{
    forall|i: int| 0 <= i < s.len() ==> sub_free_of(#[trigger] s[i], comp)
}

pub open spec fn sub_free_of(s: SubscriptModel, comp: Seq<char>) -> bool
    decreases s,
{
    match s {
        SubscriptModel::Range { .. } => true,
        SubscriptModel::Expression(e) => expr_free_of(e, comp),
    }
}

/// The reference does not begin with `comp` followed by further parts,
/// and none of its subscripts holds such a reference.
pub open spec fn cref_free_of(c: ComponentReferenceModel, comp: Seq<char>) -> bool
    decreases c,
{
    &&& !(c.parts.len() >= 2 && c.parts[0].ident.text == comp)
    &&& forall|i: int| 0 <= i < c.parts.len() ==> part_free_of(#[trigger] c.parts[i], comp)
}

pub open spec fn expr_free_of(e: ExpressionModel, comp: Seq<char>) -> bool
    decreases e,
{
    match e {
        ExpressionModel::Empty => true,
        ExpressionModel::Terminal { .. } => true,
        ExpressionModel::ComponentReference(c) => cref_free_of(c, comp),
        ExpressionModel::Unary { rhs, .. } => expr_free_of(*rhs, comp),
        ExpressionModel::Binary { lhs, rhs, .. } => expr_free_of(*lhs, comp) && expr_free_of(
            *rhs,
            comp,
        ),
        ExpressionModel::FunctionCall { comp: callee, args } => cref_free_of(callee, comp)
            && exprs_free_of(args, comp),
        ExpressionModel::Range { start, step, end } => expr_free_of(*start, comp) && (match step {
            Some(st) => expr_free_of(*st, comp),
            None => true,
        }) && expr_free_of(*end, comp),
    }
}

pub open spec fn exprs_free_of(s: Seq<ExpressionModel>, comp: Seq<char>) -> bool
    decreases s,
{
    forall|i: int| 0 <= i < s.len() ==> expr_free_of(#[trigger] s[i], comp)
}

pub open spec fn eq_free_of(e: EquationModel, comp: Seq<char>) -> bool
    decreases e,
{
    match e {
        EquationModel::Simple { lhs, rhs } => expr_free_of(lhs, comp) && expr_free_of(rhs, comp),
        EquationModel::Connect { lhs, rhs } => cref_free_of(lhs, comp) && cref_free_of(
            rhs,
            comp,
        ),
        EquationModel::FunctionCall { comp: callee, args } => cref_free_of(callee, comp)
            && exprs_free_of(args, comp),
        EquationModel::If { cond_blocks, else_block } => eq_blocks_free_of(cond_blocks, comp)
            && (match else_block {
            Some(v) => eqs_free_of(v, comp),
            None => true,
        }),
        EquationModel::When(blocks) => eq_blocks_free_of(blocks, comp),
    }
}

pub open spec fn eqs_free_of(s: Seq<EquationModel>, comp: Seq<char>) -> bool
    decreases s,
{
    forall|i: int| 0 <= i < s.len() ==> eq_free_of(#[trigger] s[i], comp)
}

pub open spec fn eq_blocks_free_of(s: Seq<EquationBlockModel>, comp: Seq<char>) -> bool
    decreases s,
{
    forall|i: int|
        0 <= i < s.len() ==> expr_free_of((#[trigger] s[i]).cond, comp) && eqs_free_of(
            s[i].eqs,
            comp,
        )
}

pub proof fn lemma_scn_part_free(p: ComponentRefPartModel, comp: Seq<char>)
    ensures
        part_free_of(scn_part(p, comp), comp),
    decreases p,
{
    match p.subs {
        None => {},
        Some(subs) => {
            lemma_scn_subs_free(subs, comp);
        },
    }
}

pub proof fn lemma_scn_subs_free(s: Seq<SubscriptModel>, comp: Seq<char>)
    ensures
        subs_free_of(scn_subscripts(s, comp), comp),
    decreases s,
{
    lemma_scn_subscripts_elementwise(s, comp);
    assert forall|i: int|
        0 <= i < scn_subscripts(s, comp).len() implies sub_free_of(
        #[trigger] scn_subscripts(s, comp)[i],
        comp,
    ) by {
        lemma_scn_sub_free(s[i], comp);
    }
}

pub proof fn lemma_scn_sub_free(s: SubscriptModel, comp: Seq<char>)
    ensures
        sub_free_of(scn_subscript(s, comp), comp),
    decreases s,
{
    match s {
        SubscriptModel::Range { .. } => {},
        SubscriptModel::Expression(e) => {
            lemma_scn_expr_free(e, comp);
        },
    }
}

pub proof fn lemma_scn_cref_free(c: ComponentReferenceModel, comp: Seq<char>)
    ensures
        cref_free_of(scn_cref(c, comp), comp),
    decreases c,
{
    let parts = scn_parts(c.parts, comp);
    lemma_scn_parts_elementwise(c.parts, comp);
    assert forall|i: int| 0 <= i < parts.len() implies part_free_of(#[trigger] parts[i], comp) by {
        lemma_scn_part_free(c.parts[i], comp);
    }
    if c.parts.len() >= 2 && c.parts[0].ident.text == comp {
        let collapsed = scn_collapsed(parts[0], parts[1], comp);
        assert(collapsed.ident.text.len() > comp.len());
        assert(collapsed.ident.text != comp);
        let out = scn_cref(c, comp).parts;
        assert forall|i: int| 0 <= i < out.len() implies part_free_of(#[trigger] out[i], comp) by {
            if i == 0 {
                assert(part_free_of(parts[1], comp));
                assert(part_free_of(collapsed, comp));
            } else {
                assert(out[i] == parts[i + 1]);
            }
        }
    }
}

pub proof fn lemma_scn_expr_free(e: ExpressionModel, comp: Seq<char>)
    ensures
        expr_free_of(scn_expr(e, comp), comp),
    decreases e,
{
    match e {
        ExpressionModel::Empty => {},
        ExpressionModel::Terminal { .. } => {},
        ExpressionModel::ComponentReference(c) => {
            lemma_scn_cref_free(c, comp);
        },
        ExpressionModel::Unary { rhs, .. } => {
            lemma_scn_expr_free(*rhs, comp);
        },
        ExpressionModel::Binary { lhs, rhs, .. } => {
            lemma_scn_expr_free(*lhs, comp);
            lemma_scn_expr_free(*rhs, comp);
        },
        ExpressionModel::FunctionCall { comp: callee, args } => {
            lemma_scn_cref_free(callee, comp);
            lemma_scn_exprs_free(args, comp);
        },
        ExpressionModel::Range { start, step, end } => {
            lemma_scn_expr_free(*start, comp);
            match step {
                Some(st) => {
                    lemma_scn_expr_free(*st, comp);
                },
                None => {},
            }
            lemma_scn_expr_free(*end, comp);
        },
    }
}

pub proof fn lemma_scn_exprs_free(s: Seq<ExpressionModel>, comp: Seq<char>)
    ensures
        exprs_free_of(scn_exprs(s, comp), comp),
    decreases s,
{
    lemma_scn_exprs_elementwise(s, comp);
    assert forall|i: int|
        0 <= i < scn_exprs(s, comp).len() implies expr_free_of(
        #[trigger] scn_exprs(s, comp)[i],
        comp,
    ) by {
        lemma_scn_expr_free(s[i], comp);
    }
}

pub proof fn lemma_scn_eq_free(e: EquationModel, comp: Seq<char>)
    ensures
        eq_free_of(scn_eq(e, comp), comp),
    decreases e,
{
    match e {
        EquationModel::Simple { lhs, rhs } => {
            lemma_scn_expr_free(lhs, comp);
            lemma_scn_expr_free(rhs, comp);
        },
        EquationModel::Connect { lhs, rhs } => {
            lemma_scn_cref_free(lhs, comp);
            lemma_scn_cref_free(rhs, comp);
        },
        EquationModel::FunctionCall { comp: callee, args } => {
            lemma_scn_cref_free(callee, comp);
            lemma_scn_exprs_free(args, comp);
        },
        EquationModel::If { cond_blocks, else_block } => {
            lemma_scn_eq_blocks_free(cond_blocks, comp);
            match else_block {
                Some(v) => {
                    lemma_scn_eqs_free(v, comp);
                },
                None => {},
            }
        },
        EquationModel::When(blocks) => {
            lemma_scn_eq_blocks_free(blocks, comp);
        },
    }
}

pub proof fn lemma_scn_eqs_free(s: Seq<EquationModel>, comp: Seq<char>)
    ensures
        eqs_free_of(scn_eqs(s, comp), comp),
    decreases s,
{
    lemma_scn_eqs_elementwise(s, comp);
    assert forall|i: int|
        0 <= i < scn_eqs(s, comp).len() implies eq_free_of(#[trigger] scn_eqs(s, comp)[i], comp) by {
        lemma_scn_eq_free(s[i], comp);
    }
}

pub proof fn lemma_scn_eq_blocks_free(s: Seq<EquationBlockModel>, comp: Seq<char>)
    ensures
        eq_blocks_free_of(scn_eq_blocks(s, comp), comp),
    decreases s,
{
    lemma_scn_eq_blocks_elementwise(s, comp);
    assert forall|i: int|
        0 <= i < scn_eq_blocks(s, comp).len() implies expr_free_of(
        (#[trigger] scn_eq_blocks(s, comp)[i]).cond,
        comp,
    ) && eqs_free_of(scn_eq_blocks(s, comp)[i].eqs, comp) by {
        lemma_scn_expr_free(s[i].cond, comp);
        lemma_scn_eqs_free(s[i].eqs, comp);
    }
}

} // verus!
