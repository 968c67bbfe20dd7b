//! The intermediate representation: a tree of value-typed records with no
//! cycles.  Tokens are the sole carriers of source position.  Each
//! executable type has a mathematical model (`...Model`) over `Seq<char>`
//! and `Seq`, reached through `View` or the `*_model` spec functions; all
//! contracts of the crate speak over these models.

use vstd::prelude::*;

verus! {

// ---------------------------------------------------------------------------
// Source locations and tokens
// ---------------------------------------------------------------------------

/// Mathematical model of a [`Location`].
pub struct LocationModel {
    pub start_line: u32,
    pub start_column: u32,
    pub end_line: u32,
    pub end_column: u32,
    pub start: u32,
    pub end: u32,
    pub file_name: Seq<char>,
}

/// A source span: line/column bounds, byte offsets, and the file name.
#[derive(Debug, Clone, PartialEq, Eq)]
pub struct Location {
    pub start_line: u32,
    pub start_column: u32,
    pub end_line: u32,
    pub end_column: u32,
    pub start: u32,
    pub end: u32,
    pub file_name: String,
}

impl View for Location {
    type V = LocationModel;

    open spec fn view(&self) -> LocationModel {
        LocationModel {
            start_line: self.start_line,
            start_column: self.start_column,
            end_line: self.end_line,
            end_column: self.end_column,
            start: self.start,
            end: self.end,
            file_name: self.file_name@,
        }
    }
}

/// Mathematical model of a [`Token`].
pub struct TokenModel {
    pub text: Seq<char>,
    pub location: LocationModel,
    pub token_number: u32,
    pub token_type: u16,
}

/// A lexeme: its text, its source location, the grammar-assigned token
/// number and the token type tag.
#[derive(Debug, Clone, PartialEq, Eq)]
pub struct Token {
    pub text: String,
    pub location: Location,
    pub token_number: u32,
    pub token_type: u16,
}

impl View for Token {
    type V = TokenModel;

    open spec fn view(&self) -> TokenModel {
        TokenModel {
            text: self.text@,
            location: self.location@,
            token_number: self.token_number,
            token_type: self.token_type,
        }
    }
}

pub open spec fn token_model(t: Token) -> TokenModel {
    t@
}

/// Model sequence of a token list.
pub open spec fn tokens_model(s: Seq<Token>) -> Seq<TokenModel> {
    Seq::new(s.len(), |i: int| s[i]@)
}

// ---------------------------------------------------------------------------
// Names
// ---------------------------------------------------------------------------

/// A non-empty dotted name: an ordered sequence of identifier tokens,
/// joined with `.` when stringified.
#[derive(Debug, Clone, PartialEq, Eq)]
pub struct Name {
    pub name: Vec<Token>,
}

impl View for Name {
    type V = Seq<TokenModel>;

    open spec fn view(&self) -> Seq<TokenModel> {
        tokens_model(self.name@)
    }
}

/// The text of a name: its identifier texts joined with `.`.
pub open spec fn name_text(n: Name) -> Seq<char> {
    join_texts(n@.map_values(|t: TokenModel| t.text), '.')
}

/// Joins a sequence of texts with a separator character.
pub open spec fn join_texts(parts: Seq<Seq<char>>, sep: char) -> Seq<char>
    decreases parts.len(),
{
    if parts.len() == 0 {
        Seq::empty()
    } else if parts.len() == 1 {
        parts[0]
    } else {
        parts[0] + seq![sep] + join_texts(parts.subrange(1, parts.len() as int), sep)
    }
}

// ---------------------------------------------------------------------------
// Expressions
// ---------------------------------------------------------------------------

/// The kind of a terminal expression.
#[derive(Debug, Clone, Copy, PartialEq, Eq)]
pub enum TerminalType {
    UnsignedInteger,
    UnsignedReal,
    String,
    Bool,
    End,
}

/// Unary operators; each carries the operator token.
#[derive(Debug, Clone, PartialEq, Eq)]
pub enum OpUnary {
    Plus(Token),
    Minus(Token),
    DotPlus(Token),
    DotMinus(Token),
    Not(Token),
}

/// Model of an [`OpUnary`].
pub enum OpUnaryModel {
    Plus(TokenModel),
    Minus(TokenModel),
    DotPlus(TokenModel),
    DotMinus(TokenModel),
    Not(TokenModel),
}

pub open spec fn op_unary_model(op: OpUnary) -> OpUnaryModel {
    match op {
        OpUnary::Plus(t) => OpUnaryModel::Plus(t@),
        OpUnary::Minus(t) => OpUnaryModel::Minus(t@),
        OpUnary::DotPlus(t) => OpUnaryModel::DotPlus(t@),
        OpUnary::DotMinus(t) => OpUnaryModel::DotMinus(t@),
        OpUnary::Not(t) => OpUnaryModel::Not(t@),
    }
}

/// Binary operators; each carries the operator token.
#[derive(Debug, Clone, PartialEq, Eq)]
pub enum OpBinary {
    Add(Token),
    Sub(Token),
    AddElem(Token),
    SubElem(Token),
    Mul(Token),
    Div(Token),
    MulElem(Token),
    DivElem(Token),
    Exp(Token),
    Eq(Token),
    Gt(Token),
    Lt(Token),
    Ge(Token),
    Le(Token),
    Neq(Token),
    And(Token),
    Or(Token),
}

/// Model of an [`OpBinary`].
pub enum OpBinaryModel {
    Add(TokenModel),
    Sub(TokenModel),
    AddElem(TokenModel),
    SubElem(TokenModel),
    Mul(TokenModel),
    Div(TokenModel),
    MulElem(TokenModel),
    DivElem(TokenModel),
    Exp(TokenModel),
    Eq(TokenModel),
    Gt(TokenModel),
    Lt(TokenModel),
    Ge(TokenModel),
    Le(TokenModel),
    Neq(TokenModel),
    And(TokenModel),
    Or(TokenModel),
}

pub open spec fn op_binary_model(op: OpBinary) -> OpBinaryModel {
    match op {
        OpBinary::Add(t) => OpBinaryModel::Add(t@),
        OpBinary::Sub(t) => OpBinaryModel::Sub(t@),
        OpBinary::AddElem(t) => OpBinaryModel::AddElem(t@),
        OpBinary::SubElem(t) => OpBinaryModel::SubElem(t@),
        OpBinary::Mul(t) => OpBinaryModel::Mul(t@),
        OpBinary::Div(t) => OpBinaryModel::Div(t@),
        OpBinary::MulElem(t) => OpBinaryModel::MulElem(t@),
        OpBinary::DivElem(t) => OpBinaryModel::DivElem(t@),
        OpBinary::Exp(t) => OpBinaryModel::Exp(t@),
        OpBinary::Eq(t) => OpBinaryModel::Eq(t@),
        OpBinary::Gt(t) => OpBinaryModel::Gt(t@),
        OpBinary::Lt(t) => OpBinaryModel::Lt(t@),
        OpBinary::Ge(t) => OpBinaryModel::Ge(t@),
        OpBinary::Le(t) => OpBinaryModel::Le(t@),
        OpBinary::Neq(t) => OpBinaryModel::Neq(t@),
        OpBinary::And(t) => OpBinaryModel::And(t@),
        OpBinary::Or(t) => OpBinaryModel::Or(t@),
    }
}

/// Whether a binary operator is relational (`== > < >= <= <>`).
pub open spec fn op_is_relational(op: OpBinaryModel) -> bool {
    match op {
        OpBinaryModel::Eq(_) => true,
        OpBinaryModel::Gt(_) => true,
        OpBinaryModel::Lt(_) => true,
        OpBinaryModel::Ge(_) => true,
        OpBinaryModel::Le(_) => true,
        OpBinaryModel::Neq(_) => true,
        _ => false,
    }
}

/// An array subscript: a bare colon (unbounded range) or an expression.
#[derive(Debug, PartialEq, Eq)]
pub enum Subscript {
    Range { token: Token },
    Expression(Expression),
}

/// Model of a [`Subscript`].
pub enum SubscriptModel {
    Range { token: TokenModel },
    Expression(ExpressionModel),
}

/// One part of a qualified reference: an identifier and its optional
/// subscripts.
#[derive(Debug, PartialEq, Eq)]
pub struct ComponentRefPart {
    pub ident: Token,
    pub subs: Option<Vec<Subscript>>,
}

/// Model of a [`ComponentRefPart`].
pub struct ComponentRefPartModel {
    pub ident: TokenModel,
    pub subs: Option<Seq<SubscriptModel>>,
}

/// A qualified variable reference; `local` is true when the reference
/// began with a leading `.` (root-anchored).  `parts` is non-empty.
#[derive(Debug, PartialEq, Eq)]
pub struct ComponentReference {
    pub local: bool,
    pub parts: Vec<ComponentRefPart>,
}

/// Model of a [`ComponentReference`].
pub struct ComponentReferenceModel {
    pub local: bool,
    pub parts: Seq<ComponentRefPartModel>,
}

/// An expression tree.  Trees are built left-associative; `^` joins one
/// primary to one primary; relations are non-chained.
#[derive(Debug, PartialEq, Eq)]
pub enum Expression {
    Empty,
    Terminal { terminal_type: TerminalType, token: Token },
    ComponentReference(ComponentReference),
    Unary { op: OpUnary, rhs: Box<Expression> },
    Binary { op: OpBinary, lhs: Box<Expression>, rhs: Box<Expression> },
    FunctionCall { comp: ComponentReference, args: Vec<Expression> },
    Range { start: Box<Expression>, step: Option<Box<Expression>>, end: Box<Expression> },
}

/// Model of an [`Expression`].
pub enum ExpressionModel {
    Empty,
    Terminal { terminal_type: TerminalType, token: TokenModel },
    ComponentReference(ComponentReferenceModel),
    Unary { op: OpUnaryModel, rhs: Box<ExpressionModel> },
    Binary { op: OpBinaryModel, lhs: Box<ExpressionModel>, rhs: Box<ExpressionModel> },
    FunctionCall { comp: ComponentReferenceModel, args: Seq<ExpressionModel> },
    Range {
        start: Box<ExpressionModel>,
        step: Option<Box<ExpressionModel>>,
        end: Box<ExpressionModel>,
    },
}

pub open spec fn expr_model(e: Expression) -> ExpressionModel
    decreases e,
{
    match e {
        Expression::Empty => ExpressionModel::Empty,
        Expression::Terminal { terminal_type, token } => ExpressionModel::Terminal {
            terminal_type,
            token: token@,
        },
        Expression::ComponentReference(c) => ExpressionModel::ComponentReference(cref_model(c)),
        Expression::Unary { op, rhs } => ExpressionModel::Unary {
            op: op_unary_model(op),
            rhs: Box::new(expr_model(*rhs)),
        },
        Expression::Binary { op, lhs, rhs } => ExpressionModel::Binary {
            op: op_binary_model(op),
            lhs: Box::new(expr_model(*lhs)),
            rhs: Box::new(expr_model(*rhs)),
        },
        Expression::FunctionCall { comp, args } => ExpressionModel::FunctionCall {
            comp: cref_model(comp),
            args: exprs_model(args@),
        },
        Expression::Range { start, step, end } => ExpressionModel::Range {
            start: Box::new(expr_model(*start)),
            step: match step {
                Some(s) => Some(Box::new(expr_model(*s))),
                None => None,
            },
            end: Box::new(expr_model(*end)),
        },
    }
}

pub open spec fn exprs_model(s: Seq<Expression>) -> Seq<ExpressionModel>
    decreases s,
{
    if s.len() == 0 {
        Seq::empty()
    } else {
        seq![expr_model(s[0])] + exprs_model(s.subrange(1, s.len() as int))
    }
}

pub open spec fn cref_model(c: ComponentReference) -> ComponentReferenceModel
    decreases c,
{
    ComponentReferenceModel { local: c.local, parts: cref_parts_model(c.parts@) }
}

pub open spec fn cref_parts_model(s: Seq<ComponentRefPart>) -> Seq<ComponentRefPartModel>
    decreases s,
{
    if s.len() == 0 {
        Seq::empty()
    } else {
        seq![cref_part_model(s[0])] + cref_parts_model(s.subrange(1, s.len() as int))
    }
}

pub open spec fn cref_part_model(p: ComponentRefPart) -> ComponentRefPartModel
    decreases p,
{
    ComponentRefPartModel {
        ident: p.ident@,
        subs: match p.subs {
            Some(v) => Some(subscripts_model(v@)),
            None => None,
        },
    }
}

pub open spec fn subscripts_model(s: Seq<Subscript>) -> Seq<SubscriptModel>
    decreases s,
{
    if s.len() == 0 {
        Seq::empty()
    } else {
        seq![subscript_model(s[0])] + subscripts_model(s.subrange(1, s.len() as int))
    }
}

pub open spec fn subscript_model(s: Subscript) -> SubscriptModel
    decreases s,
{
    match s {
        Subscript::Range { token } => SubscriptModel::Range { token: token@ },
        Subscript::Expression(e) => SubscriptModel::Expression(expr_model(e)),
    }
}

impl View for Expression {
    type V = ExpressionModel;

    open spec fn view(&self) -> ExpressionModel {
        expr_model(*self)
    }
}

impl View for ComponentReference {
    type V = ComponentReferenceModel;

    open spec fn view(&self) -> ComponentReferenceModel {
        cref_model(*self)
    }
}

// ---------------------------------------------------------------------------
// Equations and statements
// ---------------------------------------------------------------------------

/// An equation.  In `Simple`, both sides are expressions; a bare call
/// (`reinit`, `assert`, `terminate`) is lifted to `FunctionCall`.
#[derive(Debug, PartialEq, Eq)]
pub enum Equation {
    Simple { lhs: Expression, rhs: Expression },
    Connect { lhs: ComponentReference, rhs: ComponentReference },
    FunctionCall { comp: ComponentReference, args: Vec<Expression> },
    If { cond_blocks: Vec<EquationBlock>, else_block: Option<Vec<Equation>> },
    When(Vec<EquationBlock>),
}

/// A guarded list of equations: one branch of an `if` or `when` equation.
#[derive(Debug, PartialEq, Eq)]
pub struct EquationBlock {
    pub cond: Expression,
    pub eqs: Vec<Equation>,
}

/// Model of an [`Equation`].
pub enum EquationModel {
    Simple { lhs: ExpressionModel, rhs: ExpressionModel },
    Connect { lhs: ComponentReferenceModel, rhs: ComponentReferenceModel },
    FunctionCall { comp: ComponentReferenceModel, args: Seq<ExpressionModel> },
    If { cond_blocks: Seq<EquationBlockModel>, else_block: Option<Seq<EquationModel>> },
    When(Seq<EquationBlockModel>),
}

/// Model of an [`EquationBlock`].
pub struct EquationBlockModel {
    pub cond: ExpressionModel,
    pub eqs: Seq<EquationModel>,
}

pub open spec fn eq_model(e: Equation) -> EquationModel
    decreases e,
{
    match e {
        Equation::Simple { lhs, rhs } => EquationModel::Simple {
            lhs: expr_model(lhs),
            rhs: expr_model(rhs),
        },
        Equation::Connect { lhs, rhs } => EquationModel::Connect {
            lhs: cref_model(lhs),
            rhs: cref_model(rhs),
        },
        Equation::FunctionCall { comp, args } => EquationModel::FunctionCall {
            comp: cref_model(comp),
            args: exprs_model(args@),
        },
        Equation::If { cond_blocks, else_block } => EquationModel::If {
            cond_blocks: eq_blocks_model(cond_blocks@),
            else_block: match else_block {
                Some(v) => Some(eqs_model(v@)),
                None => None,
            },
        },
        Equation::When(blocks) => EquationModel::When(eq_blocks_model(blocks@)),
    }
}

pub open spec fn eqs_model(s: Seq<Equation>) -> Seq<EquationModel>
    decreases s,
{
    if s.len() == 0 {
        Seq::empty()
    } else {
        seq![eq_model(s[0])] + eqs_model(s.subrange(1, s.len() as int))
    }
}

pub open spec fn eq_block_model(b: EquationBlock) -> EquationBlockModel
    decreases b,
{
    EquationBlockModel { cond: expr_model(b.cond), eqs: eqs_model(b.eqs@) }
}

pub open spec fn eq_blocks_model(s: Seq<EquationBlock>) -> Seq<EquationBlockModel>
    decreases s,
{
    if s.len() == 0 {
        Seq::empty()
    } else {
        seq![eq_block_model(s[0])] + eq_blocks_model(s.subrange(1, s.len() as int))
    }
}

impl View for Equation {
    type V = EquationModel;

    open spec fn view(&self) -> EquationModel {
        eq_model(*self)
    }
}

/// A statement of an algorithm section.
#[derive(Debug, PartialEq, Eq)]
pub enum Statement {
    Assignment { comp: ComponentReference, value: Expression },
    FunctionCall { comp: ComponentReference, args: Vec<Expression> },
    Break { token: Token },
    Return { token: Token },
    For { indices: Vec<Token>, equations: Vec<Equation> },
}

/// A guarded list of statements, mirroring [`EquationBlock`].
#[derive(Debug, PartialEq, Eq)]
pub struct StatementBlock {
    pub cond: Expression,
    pub stmts: Vec<Statement>,
}

/// Model of a [`Statement`].
pub enum StatementModel {
    Assignment { comp: ComponentReferenceModel, value: ExpressionModel },
    FunctionCall { comp: ComponentReferenceModel, args: Seq<ExpressionModel> },
    Break { token: TokenModel },
    Return { token: TokenModel },
    For { indices: Seq<TokenModel>, equations: Seq<EquationModel> },
}

/// Model of a [`StatementBlock`].
pub struct StatementBlockModel {
    pub cond: ExpressionModel,
    pub stmts: Seq<StatementModel>,
}

pub open spec fn stmt_model(s: Statement) -> StatementModel {
    match s {
        Statement::Assignment { comp, value } => StatementModel::Assignment {
            comp: cref_model(comp),
            value: expr_model(value),
        },
        Statement::FunctionCall { comp, args } => StatementModel::FunctionCall {
            comp: cref_model(comp),
            args: exprs_model(args@),
        },
        Statement::Break { token } => StatementModel::Break { token: token@ },
        Statement::Return { token } => StatementModel::Return { token: token@ },
        Statement::For { indices, equations } => StatementModel::For {
            indices: tokens_model(indices@),
            equations: eqs_model(equations@),
        },
    }
}

pub open spec fn stmts_model(s: Seq<Statement>) -> Seq<StatementModel> {
    Seq::new(s.len(), |i: int| stmt_model(s[i]))
}

pub open spec fn stmt_block_model(b: StatementBlock) -> StatementBlockModel {
    StatementBlockModel { cond: expr_model(b.cond), stmts: stmts_model(b.stmts@) }
}

impl View for Statement {
    type V = StatementModel;

    open spec fn view(&self) -> StatementModel {
        stmt_model(*self)
    }
}

// ---------------------------------------------------------------------------
// Components, extends, classes
// ---------------------------------------------------------------------------

/// A variability prefix of a component declaration.
#[derive(Debug, Clone, PartialEq, Eq)]
pub enum Variability {
    Empty,
    Constant(Token),
    Discrete(Token),
    Parameter(Token),
}

/// Model of a [`Variability`].
pub enum VariabilityModel {
    Empty,
    Constant(TokenModel),
    Discrete(TokenModel),
    Parameter(TokenModel),
}

pub open spec fn variability_model(v: Variability) -> VariabilityModel {
    match v {
        Variability::Empty => VariabilityModel::Empty,
        Variability::Constant(t) => VariabilityModel::Constant(t@),
        Variability::Discrete(t) => VariabilityModel::Discrete(t@),
        Variability::Parameter(t) => VariabilityModel::Parameter(t@),
    }
}

/// A causality prefix of a component declaration.
#[derive(Debug, Clone, PartialEq, Eq)]
pub enum Causality {
    Empty,
    Input(Token),
    Output(Token),
}

/// Model of a [`Causality`].
pub enum CausalityModel {
    Empty,
    Input(TokenModel),
    Output(TokenModel),
}

pub open spec fn causality_model(c: Causality) -> CausalityModel {
    match c {
        Causality::Empty => CausalityModel::Empty,
        Causality::Input(t) => CausalityModel::Input(t@),
        Causality::Output(t) => CausalityModel::Output(t@),
    }
}

/// A connection prefix of a component declaration.
#[derive(Debug, Clone, PartialEq, Eq)]
pub enum Connection {
    Empty,
    Flow(Token),
    Stream(Token),
}

/// Model of a [`Connection`].
pub enum ConnectionModel {
    Empty,
    Flow(TokenModel),
    Stream(TokenModel),
}

pub open spec fn connection_model(c: Connection) -> ConnectionModel {
    match c {
        Connection::Empty => ConnectionModel::Empty,
        Connection::Flow(t) => ConnectionModel::Flow(t@),
        Connection::Stream(t) => ConnectionModel::Stream(t@),
    }
}

/// A declared variable: its name, type name, declaration prefixes,
/// description tokens and start expression.
#[derive(Debug, PartialEq, Eq)]
pub struct Component {
    pub name: String,
    pub type_specifier: Name,
    pub variability: Variability,
    pub causality: Causality,
    pub connection: Connection,
    pub description: Vec<Token>,
    pub start: Expression,
}

/// Model of a [`Component`].
pub struct ComponentModel {
    pub name: Seq<char>,
    pub type_specifier: Seq<TokenModel>,
    pub variability: VariabilityModel,
    pub causality: CausalityModel,
    pub connection: ConnectionModel,
    pub description: Seq<TokenModel>,
    pub start: ExpressionModel,
}

pub open spec fn comp_model(c: Component) -> ComponentModel {
    ComponentModel {
        name: c.name@,
        type_specifier: c.type_specifier@,
        variability: variability_model(c.variability),
        causality: causality_model(c.causality),
        connection: connection_model(c.connection),
        description: tokens_model(c.description@),
        start: expr_model(c.start),
    }
}

impl View for Component {
    type V = ComponentModel;

    open spec fn view(&self) -> ComponentModel {
        comp_model(*self)
    }
}

/// An extends clause: the name of the base class.
#[derive(Debug, Clone, PartialEq, Eq)]
pub struct Extend {
    pub comp: Name,
}

/// Model of an [`Extend`].
pub struct ExtendModel {
    pub comp: Seq<TokenModel>,
}

pub open spec fn extend_model(e: Extend) -> ExtendModel {
    ExtendModel { comp: e.comp@ }
}

/// The nested classes of a class definition, keyed by name in source
/// order.  The bare `Empty` variant is the ground case the recursive
/// type needs; it denotes the same mapping as a present, empty map.
#[derive(Debug, PartialEq, Eq)]
pub enum ClassMap {
    Empty,
    Present(Box<crate::omap::OrderedMap<ClassDefinition>>),
}

impl ClassMap {
    /// Keys in insertion order, as sequences of characters.
    pub open spec fn key_seq(&self) -> Seq<Seq<char>> {
        match self {
            ClassMap::Empty => Seq::empty(),
            ClassMap::Present(m) => m.key_seq(),
        }
    }

    /// Values in insertion order.
    pub open spec fn val_seq(&self) -> Seq<ClassDefinition> {
        match self {
            ClassMap::Empty => Seq::empty(),
            ClassMap::Present(m) => m.val_seq(),
        }
    }

    pub open spec fn wf(&self) -> bool {
        match self {
            ClassMap::Empty => true,
            ClassMap::Present(m) => m.wf(),
        }
    }

    pub open spec fn spec_contains_key(&self, k: Seq<char>) -> bool {
        crate::omap::seq_index_of(self.key_seq(), k) != -1
    }

    pub open spec fn spec_get(&self, k: Seq<char>) -> Option<ClassDefinition> {
        if self.spec_contains_key(k) {
            Some(self.val_seq()[crate::omap::seq_index_of(self.key_seq(), k)])
        } else {
            None
        }
    }

    pub fn new() -> (r: Self)
        ensures
            r.wf(),
            r.key_seq() == Seq::<Seq<char>>::empty(),
            r.val_seq() == Seq::<ClassDefinition>::empty(),
    {
        ClassMap::Empty
    }

    pub fn len(&self) -> (r: usize)
        requires
            self.wf(),
        ensures
            r == self.key_seq().len(),
    {
        match self {
            ClassMap::Empty => 0,
            ClassMap::Present(m) => m.len(),
        }
    }

    pub fn contains_key(&self, k: &String) -> (r: bool)
        ensures
            r == self.spec_contains_key(k@),
    {
        match self {
            ClassMap::Empty => false,
            ClassMap::Present(m) => m.contains_key(k),
        }
    }

    pub fn get(&self, k: &String) -> (r: Option<&ClassDefinition>)
        requires
            self.wf(),
        ensures
            match r {
                Some(v) => self.spec_get(k@) == Some(*v),
                None => self.spec_get(k@) == None::<ClassDefinition>,
            },
    {
        match self {
            ClassMap::Empty => None,
            ClassMap::Present(m) => m.get(k),
        }
    }

    /// Inserts as [`crate::omap::OrderedMap::insert`] does: a present key
    /// keeps its position, an absent key is appended.
    pub fn insert(&mut self, k: String, v: ClassDefinition)
        requires
            old(self).wf(),
        ensures
            final(self).wf(),
            old(self).spec_contains_key(k@) ==> {
                &&& final(self).key_seq() == old(self).key_seq()
                &&& final(self).val_seq() == old(self).val_seq().update(
                    crate::omap::seq_index_of(old(self).key_seq(), k@),
                    v,
                )
            },
            !old(self).spec_contains_key(k@) ==> {
                &&& final(self).key_seq() == old(self).key_seq().push(k@)
                &&& final(self).val_seq() == old(self).val_seq().push(v)
            },
    {
        match self {
            ClassMap::Empty => {
                let mut m = crate::omap::OrderedMap::<ClassDefinition>::new();
                m.insert(k, v);
                *self = ClassMap::Present(Box::new(m));
            },
            ClassMap::Present(m) => {
                m.insert(k, v);
            },
        }
    }

    pub fn val_at(&self, i: usize) -> (r: &ClassDefinition)
        requires
            self.wf(),
            i < self.val_seq().len(),
        ensures
            *r == self.val_seq()[i as int],
    {
        match self {
            ClassMap::Empty => unreached(),
            ClassMap::Present(m) => m.val_at(i),
        }
    }
}

/// A class definition: nested classes, components, extends, imports,
/// equations and algorithms, each in declaration order.
#[derive(Debug, PartialEq, Eq)]
pub struct ClassDefinition {
    pub name: Token,
    pub encapsulated: bool,
    pub classes: ClassMap,
    pub components: crate::omap::OrderedMap<Component>,
    pub extends: Vec<Extend>,
    pub imports: Vec<String>,
    pub equations: Vec<Equation>,
    pub initial_equations: Vec<Equation>,
    pub algorithms: Vec<Vec<Statement>>,
    pub initial_algorithms: Vec<Vec<Statement>>,
}

/// Model of a [`ClassDefinition`].  The two maps become sequences of
/// key/model pairs in insertion order.
pub struct ClassModel {
    pub name: TokenModel,
    pub encapsulated: bool,
    pub classes: Seq<(Seq<char>, ClassModel)>,
    pub components: Seq<(Seq<char>, ComponentModel)>,
    pub extends: Seq<ExtendModel>,
    pub imports: Seq<Seq<char>>,
    pub equations: Seq<EquationModel>,
    pub initial_equations: Seq<EquationModel>,
    pub algorithms: Seq<Seq<StatementModel>>,
    pub initial_algorithms: Seq<Seq<StatementModel>>,
}

pub open spec fn class_model(c: ClassDefinition) -> ClassModel
    decreases c,
{
    ClassModel {
        name: c.name@,
        encapsulated: c.encapsulated,
        classes: match c.classes {
            ClassMap::Empty => Seq::empty(),
            ClassMap::Present(m) => class_entries_model(m.key_seq(), m.val_seq()),
        },
        components: comp_entries_model(c.components.key_seq(), c.components.val_seq()),
        extends: c.extends@.map_values(|e: Extend| extend_model(e)),
        imports: c.imports@.map_values(|s: String| s@),
        equations: eqs_model(c.equations@),
        initial_equations: eqs_model(c.initial_equations@),
        algorithms: Seq::new(c.algorithms@.len(), |i: int| stmts_model(c.algorithms@[i]@)),
        initial_algorithms: Seq::new(
            c.initial_algorithms@.len(),
            |i: int| stmts_model(c.initial_algorithms@[i]@),
        ),
    }
}

pub open spec fn class_entries_model(keys: Seq<Seq<char>>, vals: Seq<ClassDefinition>) -> Seq<
    (Seq<char>, ClassModel),
>
    decreases vals,
{
    if vals.len() == 0 || keys.len() == 0 {
        Seq::empty()
    } else {
        seq![(keys[0], class_model(vals[0]))] + class_entries_model(
            keys.subrange(1, keys.len() as int),
            vals.subrange(1, vals.len() as int),
        )
    }
}

pub open spec fn comp_entries_model(keys: Seq<Seq<char>>, vals: Seq<Component>) -> Seq<
    (Seq<char>, ComponentModel),
>
    recommends
        keys.len() == vals.len(),
{
    Seq::new(vals.len(), |i: int| (keys[i], comp_model(vals[i])))
}

impl View for ClassDefinition {
    type V = ClassModel;

    open spec fn view(&self) -> ClassModel {
        class_model(*self)
    }
}

/// The result of lowering one stored definition: an optional `within`
/// name and the top-level classes keyed by name, in source order.
#[derive(Debug, PartialEq, Eq)]
pub struct StoredDefinition {
    pub within: Option<Name>,
    pub classes: crate::omap::OrderedMap<ClassDefinition>,
}

/// Model of a [`StoredDefinition`].
pub struct StoredDefinitionModel {
    pub within: Option<Seq<TokenModel>>,
    pub classes: Seq<(Seq<char>, ClassModel)>,
}

pub open spec fn sd_model(d: StoredDefinition) -> StoredDefinitionModel {
    StoredDefinitionModel {
        within: match d.within {
            Some(n) => Some(n@),
            None => None,
        },
        classes: class_entries_model(d.classes.key_seq(), d.classes.val_seq()),
    }
}

impl View for StoredDefinition {
    type V = StoredDefinitionModel;

    open spec fn view(&self) -> StoredDefinitionModel {
        sd_model(*self)
    }
}

// ---------------------------------------------------------------------------
// Element-wise characterization of the list models
// ---------------------------------------------------------------------------

pub proof fn lemma_eqs_model(s: Seq<Equation>)
    ensures
        eqs_model(s).len() == s.len(),
        forall|i: int| 0 <= i < s.len() ==> eqs_model(s)[i] == eq_model(s[i]),
    decreases s,
{
    if s.len() > 0 {
        lemma_eqs_model(s.subrange(1, s.len() as int));
    }
}

/// The model of a pushed equation list.
pub proof fn lemma_eqs_model_push(s: Seq<Equation>, e: Equation)
    ensures
        eqs_model(s.push(e)) == eqs_model(s).push(eq_model(e)),
{
    lemma_eqs_model(s);
    lemma_eqs_model(s.push(e));
    assert(eqs_model(s.push(e)) =~= eqs_model(s).push(eq_model(e)));
}

/// The model of a pushed expression list.
pub proof fn lemma_exprs_model_push(s: Seq<Expression>, e: Expression)
    ensures
        exprs_model(s.push(e)) == exprs_model(s).push(expr_model(e)),
{
    lemma_exprs_model(s);
    lemma_exprs_model(s.push(e));
    assert(exprs_model(s.push(e)) =~= exprs_model(s).push(expr_model(e)));
}

/// The model of a concatenation is the concatenation of the models.
pub proof fn lemma_eqs_model_concat(a: Seq<Equation>, b: Seq<Equation>)
    ensures
        eqs_model(a + b) == eqs_model(a) + eqs_model(b),
{
    lemma_eqs_model(a);
    lemma_eqs_model(b);
    lemma_eqs_model(a + b);
    assert forall|i: int| 0 <= i < a.len() + b.len() implies eqs_model(a + b)[i] == (eqs_model(a)
        + eqs_model(b))[i] by {
        if i < a.len() {
            assert((a + b)[i] == a[i]);
        } else {
            assert((a + b)[i] == b[i - a.len()]);
        }
    }
    assert(eqs_model(a + b) =~= eqs_model(a) + eqs_model(b));
}

pub proof fn lemma_eq_blocks_model(s: Seq<EquationBlock>)
    ensures
        eq_blocks_model(s).len() == s.len(),
        forall|i: int| 0 <= i < s.len() ==> eq_blocks_model(s)[i] == eq_block_model(s[i]),
    decreases s,
{
    if s.len() > 0 {
        lemma_eq_blocks_model(s.subrange(1, s.len() as int));
    }
}

pub proof fn lemma_class_entries_model(keys: Seq<Seq<char>>, vals: Seq<ClassDefinition>)
    requires
        keys.len() == vals.len(),
    ensures
        class_entries_model(keys, vals).len() == vals.len(),
        forall|i: int|
            0 <= i < vals.len() ==> class_entries_model(keys, vals)[i] == (
            keys[i],
            class_model(vals[i]),
            ),
    decreases vals,
{
    if vals.len() > 0 {
        lemma_class_entries_model(
            keys.subrange(1, keys.len() as int),
            vals.subrange(1, vals.len() as int),
        );
    }
}

// ---------------------------------------------------------------------------
// Deep copies
//
// The IR types own their data, so passing a value to a later stage while
// keeping the original requires an explicit copy.  Each copy is equal to
// its original at the model level; tokens and names are equal as values.
// ---------------------------------------------------------------------------

impl Location {
    pub fn duplicate(&self) -> (r: Location)
        ensures
            r == *self,
    {
        Location {
            start_line: self.start_line,
            start_column: self.start_column,
            end_line: self.end_line,
            end_column: self.end_column,
            start: self.start,
            end: self.end,
            file_name: self.file_name.clone(),
        }
    }
}

impl Token {
    pub fn duplicate(&self) -> (r: Token)
        ensures
            r == *self,
    {
        Token {
            text: self.text.clone(),
            location: self.location.duplicate(),
            token_number: self.token_number,
            token_type: self.token_type,
        }
    }
}

/// Copies a token list; the copy holds the same token values.
pub fn duplicate_tokens(v: &Vec<Token>) -> (r: Vec<Token>)
    ensures
        r@ == v@,
{
    let mut r: Vec<Token> = Vec::new();
    let n = v.len();
    let mut i: usize = 0;
    while i < n
        invariant
            n == v@.len(),
            0 <= i <= n,
            r@ == v@.subrange(0, i as int),
        decreases n - i,
    {
        r.push(v[i].duplicate());
        proof {
            assert(r@ =~= v@.subrange(0, i + 1));
        }
        i += 1;
    }
    proof {
        assert(v@.subrange(0, n as int) =~= v@);
    }
    r
}

impl Name {
    pub fn duplicate(&self) -> (r: Name)
        ensures
            r.name@ == self.name@,
    {
        Name { name: duplicate_tokens(&self.name) }
    }
}

impl OpUnary {
    pub fn duplicate(&self) -> (r: OpUnary)
        ensures
            r == *self,
    {
        match self {
            OpUnary::Plus(t) => OpUnary::Plus(t.duplicate()),
            OpUnary::Minus(t) => OpUnary::Minus(t.duplicate()),
            OpUnary::DotPlus(t) => OpUnary::DotPlus(t.duplicate()),
            OpUnary::DotMinus(t) => OpUnary::DotMinus(t.duplicate()),
            OpUnary::Not(t) => OpUnary::Not(t.duplicate()),
        }
    }
}

impl OpBinary {
    pub fn duplicate(&self) -> (r: OpBinary)
        ensures
            r == *self,
    {
        match self {
            OpBinary::Add(t) => OpBinary::Add(t.duplicate()),
            OpBinary::Sub(t) => OpBinary::Sub(t.duplicate()),
            OpBinary::AddElem(t) => OpBinary::AddElem(t.duplicate()),
            OpBinary::SubElem(t) => OpBinary::SubElem(t.duplicate()),
            OpBinary::Mul(t) => OpBinary::Mul(t.duplicate()),
            OpBinary::Div(t) => OpBinary::Div(t.duplicate()),
            OpBinary::MulElem(t) => OpBinary::MulElem(t.duplicate()),
            OpBinary::DivElem(t) => OpBinary::DivElem(t.duplicate()),
            OpBinary::Exp(t) => OpBinary::Exp(t.duplicate()),
            OpBinary::Eq(t) => OpBinary::Eq(t.duplicate()),
            OpBinary::Gt(t) => OpBinary::Gt(t.duplicate()),
            OpBinary::Lt(t) => OpBinary::Lt(t.duplicate()),
            OpBinary::Ge(t) => OpBinary::Ge(t.duplicate()),
            OpBinary::Le(t) => OpBinary::Le(t.duplicate()),
            OpBinary::Neq(t) => OpBinary::Neq(t.duplicate()),
            OpBinary::And(t) => OpBinary::And(t.duplicate()),
            OpBinary::Or(t) => OpBinary::Or(t.duplicate()),
        }
    }
}

impl Expression {
    pub fn duplicate(&self) -> (r: Expression)
        ensures
            expr_model(r) == expr_model(*self),
        decreases *self,
    {
        match self {
            Expression::Empty => Expression::Empty,
            Expression::Terminal { terminal_type, token } => Expression::Terminal {
                terminal_type: *terminal_type,
                token: token.duplicate(),
            },
            Expression::ComponentReference(c) => Expression::ComponentReference(c.duplicate()),
            Expression::Unary { op, rhs } => Expression::Unary {
                op: op.duplicate(),
                rhs: Box::new(rhs.duplicate()),
            },
            Expression::Binary { op, lhs, rhs } => Expression::Binary {
                op: op.duplicate(),
                lhs: Box::new(lhs.duplicate()),
                rhs: Box::new(rhs.duplicate()),
            },
            Expression::FunctionCall { comp, args } => Expression::FunctionCall {
                comp: comp.duplicate(),
                args: duplicate_exprs(args),
            },
            Expression::Range { start, step, end } => Expression::Range {
                start: Box::new(start.duplicate()),
                step: match step {
                    Some(s) => Some(Box::new(s.duplicate())),
                    None => None,
                },
                end: Box::new(end.duplicate()),
            },
        }
    }
}

/// Copies an expression list; the copy has the same model.
pub fn duplicate_exprs(v: &Vec<Expression>) -> (r: Vec<Expression>)
    ensures
        exprs_model(r@) == exprs_model(v@),
    decreases v@,
{
    let mut r: Vec<Expression> = Vec::new();
    let n = v.len();
    let mut i: usize = 0;
    while i < n
        invariant
            n == v@.len(),
            0 <= i <= n,
            r@.len() == i,
            forall|j: int| 0 <= j < i ==> expr_model(r@[j]) == expr_model(v@[j]),
        decreases n - i,
    {
        r.push(v[i].duplicate());
        i += 1;
    }
    proof {
        lemma_exprs_model(r@);
        lemma_exprs_model(v@);
        assert(exprs_model(r@) =~= exprs_model(v@));
    }
    r
}

impl ComponentReference {
    pub fn duplicate(&self) -> (r: ComponentReference)
        ensures
            cref_model(r) == cref_model(*self),
        decreases *self,
    {
        let mut parts: Vec<ComponentRefPart> = Vec::new();
        let n = self.parts.len();
        let mut i: usize = 0;
        while i < n
            invariant
                n == self.parts@.len(),
                0 <= i <= n,
                parts@.len() == i,
                forall|j: int|
                    0 <= j < i ==> cref_part_model(parts@[j]) == cref_part_model(self.parts@[j]),
            decreases n - i,
        {
            parts.push(self.parts[i].duplicate());
            i += 1;
        }
        proof {
            lemma_cref_parts_model(parts@);
            lemma_cref_parts_model(self.parts@);
            assert(cref_parts_model(parts@) =~= cref_parts_model(self.parts@));
        }
        ComponentReference { local: self.local, parts }
    }
}

impl ComponentRefPart {
    pub fn duplicate(&self) -> (r: ComponentRefPart)
        ensures
            cref_part_model(r) == cref_part_model(*self),
        decreases *self,
    {
        ComponentRefPart {
            ident: self.ident.duplicate(),
            subs: match &self.subs {
                Some(v) => {
                    proof {
                        assert(decreases_to!(*self => self.subs));
                        assert(decreases_to!(self.subs => *v));
                        assert(decreases_to!(*v => v@));
                    }
                    Some(duplicate_subscripts(v))
                },
                None => None,
            },
        }
    }
}

/// Copies a subscript list; the copy has the same model.
pub fn duplicate_subscripts(v: &Vec<Subscript>) -> (r: Vec<Subscript>)
    ensures
        subscripts_model(r@) == subscripts_model(v@),
    decreases v@,
{
    let mut r: Vec<Subscript> = Vec::new();
    let n = v.len();
    let mut i: usize = 0;
    while i < n
        invariant
            n == v@.len(),
            0 <= i <= n,
            r@.len() == i,
            forall|j: int| 0 <= j < i ==> subscript_model(r@[j]) == subscript_model(v@[j]),
        decreases n - i,
    {
        r.push(v[i].duplicate());
        i += 1;
    }
    proof {
        lemma_subscripts_model(r@);
        lemma_subscripts_model(v@);
        assert(subscripts_model(r@) =~= subscripts_model(v@));
    }
    r
}

impl Subscript {
    pub fn duplicate(&self) -> (r: Subscript)
        ensures
            subscript_model(r) == subscript_model(*self),
        decreases *self,
    {
        match self {
            Subscript::Range { token } => Subscript::Range { token: token.duplicate() },
            Subscript::Expression(e) => Subscript::Expression(e.duplicate()),
        }
    }
}

impl Equation {
    pub fn duplicate(&self) -> (r: Equation)
        ensures
            eq_model(r) == eq_model(*self),
        decreases *self,
    {
        match self {
            Equation::Simple { lhs, rhs } => Equation::Simple {
                lhs: lhs.duplicate(),
                rhs: rhs.duplicate(),
            },
            Equation::Connect { lhs, rhs } => Equation::Connect {
                lhs: lhs.duplicate(),
                rhs: rhs.duplicate(),
            },
            Equation::FunctionCall { comp, args } => Equation::FunctionCall {
                comp: comp.duplicate(),
                args: duplicate_exprs(args),
            },
            Equation::If { cond_blocks, else_block } => Equation::If {
                cond_blocks: duplicate_eq_blocks(cond_blocks),
                else_block: match else_block {
                    Some(v) => Some(duplicate_eqs(v)),
                    None => None,
                },
            },
            Equation::When(blocks) => Equation::When(duplicate_eq_blocks(blocks)),
        }
    }
}

/// Copies an equation list; the copy has the same model.
pub fn duplicate_eqs(v: &Vec<Equation>) -> (r: Vec<Equation>)
    ensures
        eqs_model(r@) == eqs_model(v@),
    decreases v@,
{
    let mut r: Vec<Equation> = Vec::new();
    let n = v.len();
    let mut i: usize = 0;
    while i < n
        invariant
            n == v@.len(),
            0 <= i <= n,
            r@.len() == i,
            forall|j: int| 0 <= j < i ==> eq_model(r@[j]) == eq_model(v@[j]),
        decreases n - i,
    {
        r.push(v[i].duplicate());
        i += 1;
    }
    proof {
        lemma_eqs_model(r@);
        lemma_eqs_model(v@);
        assert(eqs_model(r@) =~= eqs_model(v@));
    }
    r
}

pub fn duplicate_eq_blocks(v: &Vec<EquationBlock>) -> (r: Vec<EquationBlock>)
    ensures
        eq_blocks_model(r@) == eq_blocks_model(v@),
    decreases v@,
{
    let mut r: Vec<EquationBlock> = Vec::new();
    let n = v.len();
    let mut i: usize = 0;
    while i < n
        invariant
            n == v@.len(),
            0 <= i <= n,
            r@.len() == i,
            forall|j: int| 0 <= j < i ==> eq_block_model(r@[j]) == eq_block_model(v@[j]),
        decreases n - i,
    {
        let b = &v[i];
        r.push(EquationBlock { cond: b.cond.duplicate(), eqs: duplicate_eqs(&b.eqs) });
        i += 1;
    }
    proof {
        lemma_eq_blocks_model(r@);
        lemma_eq_blocks_model(v@);
        assert(eq_blocks_model(r@) =~= eq_blocks_model(v@));
    }
    r
}

impl Variability {
    pub fn duplicate(&self) -> (r: Variability)
        ensures
            r == *self,
    {
        match self {
            Variability::Empty => Variability::Empty,
            Variability::Constant(t) => Variability::Constant(t.duplicate()),
            Variability::Discrete(t) => Variability::Discrete(t.duplicate()),
            Variability::Parameter(t) => Variability::Parameter(t.duplicate()),
        }
    }
}

impl Causality {
    pub fn duplicate(&self) -> (r: Causality)
        ensures
            r == *self,
    {
        match self {
            Causality::Empty => Causality::Empty,
            Causality::Input(t) => Causality::Input(t.duplicate()),
            Causality::Output(t) => Causality::Output(t.duplicate()),
        }
    }
}

impl Connection {
    pub fn duplicate(&self) -> (r: Connection)
        ensures
            r == *self,
    {
        match self {
            Connection::Empty => Connection::Empty,
            Connection::Flow(t) => Connection::Flow(t.duplicate()),
            Connection::Stream(t) => Connection::Stream(t.duplicate()),
        }
    }
}

impl Component {
    pub fn duplicate(&self) -> (r: Component)
        ensures
            comp_model(r) == comp_model(*self),
    {
        Component {
            name: self.name.clone(),
            type_specifier: self.type_specifier.duplicate(),
            variability: self.variability.duplicate(),
            causality: self.causality.duplicate(),
            connection: self.connection.duplicate(),
            description: duplicate_tokens(&self.description),
            start: self.start.duplicate(),
        }
    }
}

impl Statement {
    pub fn duplicate(&self) -> (r: Statement)
        ensures
            stmt_model(r) == stmt_model(*self),
    {
        match self {
            Statement::Assignment { comp, value } => Statement::Assignment {
                comp: comp.duplicate(),
                value: value.duplicate(),
            },
            Statement::FunctionCall { comp, args } => Statement::FunctionCall {
                comp: comp.duplicate(),
                args: duplicate_exprs(args),
            },
            Statement::Break { token } => Statement::Break { token: token.duplicate() },
            Statement::Return { token } => Statement::Return { token: token.duplicate() },
            Statement::For { indices, equations } => Statement::For {
                indices: duplicate_tokens(indices),
                equations: duplicate_eqs(equations),
            },
        }
    }
}

/// Copies a statement list; the copy has the same model.
pub fn duplicate_stmts(v: &Vec<Statement>) -> (r: Vec<Statement>)
    ensures
        stmts_model(r@) == stmts_model(v@),
{
    let mut r: Vec<Statement> = Vec::new();
    let n = v.len();
    let mut i: usize = 0;
    while i < n
        invariant
            n == v@.len(),
            0 <= i <= n,
            r@.len() == i,
            forall|j: int| 0 <= j < i ==> stmt_model(r@[j]) == stmt_model(v@[j]),
        decreases n - i,
    {
        r.push(v[i].duplicate());
        i += 1;
    }
    proof {
        assert(stmts_model(r@) =~= stmts_model(v@));
    }
    r
}

/// Copies a list of algorithm sections.
pub fn duplicate_algorithms(v: &Vec<Vec<Statement>>) -> (r: Vec<Vec<Statement>>)
    ensures
        r@.len() == v@.len(),
        forall|i: int| 0 <= i < v@.len() ==> stmts_model(r@[i]@) == stmts_model(v@[i]@),
{
    let mut r: Vec<Vec<Statement>> = Vec::new();
    let n = v.len();
    let mut i: usize = 0;
    while i < n
        invariant
            n == v@.len(),
            0 <= i <= n,
            r@.len() == i,
            forall|j: int| 0 <= j < i ==> stmts_model(r@[j]@) == stmts_model(v@[j]@),
        decreases n - i,
    {
        r.push(duplicate_stmts(&v[i]));
        i += 1;
    }
    r
}

/// Copies a string list; the copy holds the same string values.
pub fn duplicate_strings(v: &Vec<String>) -> (r: Vec<String>)
    ensures
        r@ == v@,
{
    let mut r: Vec<String> = Vec::new();
    let n = v.len();
    let mut i: usize = 0;
    while i < n
        invariant
            n == v@.len(),
            0 <= i <= n,
            r@ == v@.subrange(0, i as int),
        decreases n - i,
    {
        r.push(v[i].clone());
        proof {
            assert(r@ =~= v@.subrange(0, i + 1));
        }
        i += 1;
    }
    proof {
        assert(v@.subrange(0, n as int) =~= v@);
    }
    r
}

impl Extend {
    pub fn duplicate(&self) -> (r: Extend)
        ensures
            r.comp.name@ == self.comp.name@,
    {
        Extend { comp: self.comp.duplicate() }
    }
}

/// Copies an extends list; the copy has the same model.
pub fn duplicate_extends(v: &Vec<Extend>) -> (r: Vec<Extend>)
    ensures
        r@.map_values(|e: Extend| extend_model(e)) == v@.map_values(
            |e: Extend| extend_model(e),
        ),
{
    let mut r: Vec<Extend> = Vec::new();
    let n = v.len();
    let mut i: usize = 0;
    while i < n
        invariant
            n == v@.len(),
            0 <= i <= n,
            r@.len() == i,
            forall|j: int| 0 <= j < i ==> extend_model(r@[j]) == extend_model(v@[j]),
        decreases n - i,
    {
        r.push(v[i].duplicate());
        i += 1;
    }
    proof {
        assert(r@.map_values(|e: Extend| extend_model(e)) =~= v@.map_values(
            |e: Extend| extend_model(e),
        ));
    }
    r
}

/// Copies a component map; keys keep their values, values their models.
pub fn duplicate_components(m: &crate::omap::OrderedMap<Component>) -> (r:
    crate::omap::OrderedMap<Component>)
    requires
        m.wf(),
    ensures
        r.wf(),
        r.key_seq() == m.key_seq(),
        r.val_seq().len() == m.val_seq().len(),
        forall|i: int|
            0 <= i < m.val_seq().len() ==> comp_model(r.val_seq()[i]) == comp_model(
                m.val_seq()[i],
            ),
        comp_entries_model(r.key_seq(), r.val_seq()) == comp_entries_model(
            m.key_seq(),
            m.val_seq(),
        ),
{
    let keys = duplicate_strings(&m.keys);
    let mut vals: Vec<Component> = Vec::new();
    let n = m.vals.len();
    let mut i: usize = 0;
    while i < n
        invariant
            n == m.vals@.len(),
            0 <= i <= n,
            vals@.len() == i,
            forall|j: int| 0 <= j < i ==> comp_model(vals@[j]) == comp_model(m.vals@[j]),
        decreases n - i,
    {
        vals.push(m.vals[i].duplicate());
        i += 1;
    }
    let r = crate::omap::OrderedMap { keys, vals };
    proof {
        assert(r.key_seq() =~= m.key_seq());
        assert(comp_entries_model(r.key_seq(), r.val_seq()) =~= comp_entries_model(
            m.key_seq(),
            m.val_seq(),
        ));
    }
    r
}

impl ClassMap {
    pub fn duplicate(&self) -> (r: ClassMap)
        requires
            class_map_wf(*self),
        ensures
            class_map_wf(r),
            r.key_seq() == self.key_seq(),
            r.val_seq().len() == self.val_seq().len(),
            forall|i: int|
                0 <= i < self.val_seq().len() ==> class_model(r.val_seq()[i]) == class_model(
                    self.val_seq()[i],
                ),
        decreases *self,
    {
        match self {
            ClassMap::Empty => ClassMap::Empty,
            ClassMap::Present(m) => {
                proof {
                    lemma_classes_deep_wf(m.vals@);
                }
                let keys = duplicate_strings(&m.keys);
                let mut vals: Vec<ClassDefinition> = Vec::new();
                let n = m.vals.len();
                let mut i: usize = 0;
                while i < n
                    invariant
                        n == m.vals@.len(),
                        0 <= i <= n,
                        vals@.len() == i,
                        forall|j: int| 0 <= j < n ==> class_wf(#[trigger] m.vals@[j]),
                        forall|j: int| 0 <= j < i ==> class_wf(#[trigger] vals@[j]),
                        forall|j: int|
                            0 <= j < i ==> class_model(vals@[j]) == class_model(m.vals@[j]),
                        decreases_to!(*self => m.vals@),
                    decreases n - i,
                {
                    proof {
                        assert(decreases_to!(m.vals@ => m.vals@[i as int]));
                    }
                    vals.push(m.vals[i].duplicate());
                    i += 1;
                }
                let r = ClassMap::Present(Box::new(crate::omap::OrderedMap { keys, vals }));
                proof {
                    assert(r.key_seq() =~= self.key_seq());
                    lemma_classes_deep_wf(vals@);
                }
                r
            },
        }
    }
}

/// Equal keys and element-wise equal class models give equal entries.
pub proof fn lemma_class_entries_congruence(
    keys: Seq<Seq<char>>,
    vals1: Seq<ClassDefinition>,
    vals2: Seq<ClassDefinition>,
)
    requires
        keys.len() == vals1.len(),
        vals1.len() == vals2.len(),
        forall|i: int| 0 <= i < vals1.len() ==> class_model(vals1[i]) == class_model(vals2[i]),
    ensures
        class_entries_model(keys, vals1) == class_entries_model(keys, vals2),
{
    lemma_class_entries_model(keys, vals1);
    lemma_class_entries_model(keys, vals2);
    assert(class_entries_model(keys, vals1) =~= class_entries_model(keys, vals2));
}

impl ClassDefinition {
    pub fn duplicate(&self) -> (r: ClassDefinition)
        requires
            class_wf(*self),
        ensures
            class_wf(r),
            class_model(r) == class_model(*self),
        decreases *self,
    {
        proof {
            assert(decreases_to!(*self => self.classes));
        }
        let r = ClassDefinition {
            name: self.name.duplicate(),
            encapsulated: self.encapsulated,
            classes: self.classes.duplicate(),
            components: duplicate_components(&self.components),
            extends: duplicate_extends(&self.extends),
            imports: duplicate_strings(&self.imports),
            equations: duplicate_eqs(&self.equations),
            initial_equations: duplicate_eqs(&self.initial_equations),
            algorithms: duplicate_algorithms(&self.algorithms),
            initial_algorithms: duplicate_algorithms(&self.initial_algorithms),
        };
        proof {
            lemma_class_entries_congruence(
                self.classes.key_seq(),
                r.classes.val_seq(),
                self.classes.val_seq(),
            );
            assert(r.imports@.map_values(|s: String| s@) =~= self.imports@.map_values(
                |s: String| s@,
            ));
            assert(Seq::new(r.algorithms@.len(), |i: int| stmts_model(r.algorithms@[i]@)) =~= Seq::new(
                self.algorithms@.len(),
                |i: int| stmts_model(self.algorithms@[i]@),
            ));
            assert(Seq::new(
                r.initial_algorithms@.len(),
                |i: int| stmts_model(r.initial_algorithms@[i]@),
            ) =~= Seq::new(
                self.initial_algorithms@.len(),
                |i: int| stmts_model(self.initial_algorithms@[i]@),
            ));
        }
        r
    }

    /// Well-formed: both maps are well-formed, nested classes too.
    pub open spec fn wf(&self) -> bool {
        class_wf(*self)
    }
}

/// Deep well-formedness of a class: both maps are well-formed at every
/// nesting level.
pub open spec fn class_wf(c: ClassDefinition) -> bool
    decreases c,
{
    &&& c.components.wf()
    &&& match c.classes {
        ClassMap::Empty => true,
        ClassMap::Present(m) => m.wf() && classes_deep_wf(m.vals@),
    }
}

pub open spec fn classes_deep_wf(s: Seq<ClassDefinition>) -> bool
    decreases s,
{
    s.len() == 0 || (class_wf(s[0]) && classes_deep_wf(s.subrange(1, s.len() as int)))
}

pub proof fn lemma_classes_deep_wf(s: Seq<ClassDefinition>)
    ensures
        classes_deep_wf(s) <==> (forall|i: int| 0 <= i < s.len() ==> class_wf(#[trigger] s[i])),
    decreases s,
{
    if s.len() > 0 {
        let sub = s.subrange(1, s.len() as int);
        lemma_classes_deep_wf(sub);
        assert forall|i: int| 1 <= i < s.len() implies s[i] == sub[i - 1] by {}
        if class_wf(s[0]) && classes_deep_wf(sub) {
            assert forall|i: int| 0 <= i < s.len() implies class_wf(#[trigger] s[i]) by {
                if i > 0 {
                    assert(class_wf(sub[i - 1]));
                }
            }
        }
    }
}

/// Deep well-formedness of a class map.
pub open spec fn class_map_wf(cm: ClassMap) -> bool {
    match cm {
        ClassMap::Empty => true,
        ClassMap::Present(m) => m.wf() && classes_deep_wf(m.vals@),
    }
}

pub proof fn lemma_exprs_model(s: Seq<Expression>)
    ensures
        exprs_model(s).len() == s.len(),
        forall|i: int| 0 <= i < s.len() ==> exprs_model(s)[i] == expr_model(s[i]),
    decreases s,
{
    if s.len() > 0 {
        lemma_exprs_model(s.subrange(1, s.len() as int));
    }
}

pub proof fn lemma_cref_parts_model(s: Seq<ComponentRefPart>)
    ensures
        cref_parts_model(s).len() == s.len(),
        forall|i: int| 0 <= i < s.len() ==> cref_parts_model(s)[i] == cref_part_model(s[i]),
    decreases s,
{
    if s.len() > 0 {
        lemma_cref_parts_model(s.subrange(1, s.len() as int));
    }
}

pub proof fn lemma_subscripts_model(s: Seq<Subscript>)
    ensures
        subscripts_model(s).len() == s.len(),
        forall|i: int| 0 <= i < s.len() ==> subscripts_model(s)[i] == subscript_model(s[i]),
    decreases s,
{
    if s.len() > 0 {
        lemma_subscripts_model(s.subrange(1, s.len() as int));
    }
}

} // verus!
