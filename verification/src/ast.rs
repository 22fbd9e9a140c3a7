//! The abstract syntax tree: immutable expression nodes built by the parser,
//! and the mathematical view (`ExprV`) that contracts speak of.
//!
//! Set and let bindings are held as a sequence of pairs in insertion order;
//! the parser keeps their keys unique by overwriting the earlier value of a
//! duplicate key in place (see `upsert` in the parser).

use vstd::prelude::*;

verus! {

/// A node that carries a literal text payload.
pub trait AstNode {
    fn get_literal(&self) -> String;
}

/// One expression of the language.
#[derive(Debug, PartialEq)]
pub enum Expr {
    Unary(Box<UnaryExpr>),
    Binary(Box<BinaryExpr>),
    Binding(Box<BindingExpr>),
    Ident(IdentExpr),
    Literal(LiteralExpr),
    AttrSet(SetExpr),
    List(ListExpr),
    Let(Box<LetExpr>),
    With(Box<WithExpr>),
    If(Box<IfExpr>),
    Select(Box<SelectExpr>),
    Apply(Box<ApplyExpr>),
}

/// The mathematical image of a literal: text payloads abstracted to
/// character sequences, float literals kept as their source text.
pub enum LiteralV {
    Str(Seq<char>),
    Path(Seq<char>),
    NixPath(Seq<char>),
    Int(i32),
    Flo(Seq<char>),
    Bool(bool),
    Null,
}

/// The mathematical image of an expression.
pub enum ExprV {
    Unary { typ: UnaryExprType, right: Box<ExprV> },
    Binary { typ: BinaryExprType, left: Box<ExprV>, right: Box<ExprV> },
    Binding { ident: Seq<char>, expr: Box<ExprV> },
    Ident(Seq<char>),
    Literal(LiteralV),
    AttrSet(Seq<(Seq<char>, ExprV)>),
    List(Seq<ExprV>),
    Let { bindings: Seq<(Seq<char>, ExprV)>, body: Box<ExprV> },
    With { scope: Box<ExprV>, expr: Box<ExprV> },
    If { cond: Box<ExprV>, truthy: Box<ExprV>, falsy: Box<ExprV> },
    Select { set: Box<ExprV>, field: Seq<char> },
    Apply { func: Box<ExprV>, arg: Box<ExprV> },
}

/// The image of an expression: every text payload becomes a character
/// sequence, every node keeps its shape.
pub open spec fn expr_view(e: Expr) -> ExprV
    decreases e,
{
    match e {
        Expr::Unary(u) => ExprV::Unary { typ: u.typ, right: Box::new(expr_view(u.right)) },
        Expr::Binary(b) => ExprV::Binary {
            typ: b.typ,
            left: Box::new(expr_view(b.left)),
            right: Box::new(expr_view(b.right)),
        },
        Expr::Binding(b) => ExprV::Binding {
            ident: b.ident.name@,
            expr: Box::new(expr_view(b.expr)),
        },
        Expr::Ident(id) => ExprV::Ident(id.name@),
        Expr::Literal(l) => ExprV::Literal(
            match l {
                LiteralExpr::Str(s) => LiteralV::Str(s@),
                LiteralExpr::Path(s) => LiteralV::Path(s@),
                LiteralExpr::NixPath(s) => LiteralV::NixPath(s@),
                LiteralExpr::Int(i) => LiteralV::Int(i),
                LiteralExpr::Flo(s) => LiteralV::Flo(s@),
                LiteralExpr::Bool(b) => LiteralV::Bool(b),
                LiteralExpr::Null() => LiteralV::Null,
            },
        ),
        Expr::AttrSet(s) => ExprV::AttrSet(named_exprs_view(s.elems@)),
        Expr::List(l) => ExprV::List(exprs_view(l.elems@)),
        Expr::Let(l) => ExprV::Let {
            bindings: let_bindings_view(l.bindings@),
            body: Box::new(expr_view(l.body)),
        },
        Expr::With(w) => ExprV::With {
            scope: Box::new(expr_view(w.scope)),
            expr: Box::new(expr_view(w.expr)),
        },
        Expr::If(f) => ExprV::If {
            cond: Box::new(expr_view(f.cond)),
            truthy: Box::new(expr_view(f.truthy)),
            falsy: Box::new(expr_view(f.falsy)),
        },
        Expr::Select(s) => ExprV::Select {
            set: Box::new(expr_view(s.set)),
            field: s.field.name@,
        },
        Expr::Apply(a) => ExprV::Apply {
            func: Box::new(expr_view(a.func)),
            arg: Box::new(expr_view(a.arg)),
        },
    }
}

/// The image of an ordered name-to-expression mapping.
pub open spec fn named_exprs_view(s: Seq<(String, Expr)>) -> Seq<(Seq<char>, ExprV)>
    decreases s,
{
    if s.len() == 0 {
        Seq::empty()
    } else {
        named_exprs_view(s.drop_last()).push((s.last().0@, expr_view(s.last().1)))
    }
}

/// The image of an expression sequence.
pub open spec fn exprs_view(s: Seq<Expr>) -> Seq<ExprV>
    decreases s,
{
    if s.len() == 0 {
        Seq::empty()
    } else {
        exprs_view(s.drop_last()).push(expr_view(s.last()))
    }
}

/// The image of an ordered identifier-to-expression binding list.
pub open spec fn let_bindings_view(s: Seq<(IdentExpr, Expr)>) -> Seq<(Seq<char>, ExprV)>
    decreases s,
{
    if s.len() == 0 {
        Seq::empty()
    } else {
        let_bindings_view(s.drop_last()).push((s.last().0.name@, expr_view(s.last().1)))
    }
}

impl View for Expr {
    type V = ExprV;

    open spec fn view(&self) -> ExprV {
        expr_view(*self)
    }
}

impl Expr {
    pub fn new_str(s: &str) -> (r: Self)
        ensures
            r@ == ExprV::Literal(LiteralV::Str(s@)),
    {
        Expr::Literal(LiteralExpr::Str(String::from_str(s)))
    }

    pub fn new_path(s: &str) -> (r: Self)
        ensures
            r@ == ExprV::Literal(LiteralV::Path(s@)),
    {
        Expr::Literal(LiteralExpr::Path(String::from_str(s)))
    }

    pub fn new_nix_path(s: &str) -> (r: Self)
        ensures
            r@ == ExprV::Literal(LiteralV::NixPath(s@)),
    {
        Expr::Literal(LiteralExpr::NixPath(String::from_str(s)))
    }

    pub fn new_int(i: i32) -> (r: Self)
        ensures
            r@ == ExprV::Literal(LiteralV::Int(i)),
    {
        Expr::Literal(LiteralExpr::Int(i))
    }

    /// A float literal, carried as its source text.
    pub fn new_flo(s: &str) -> (r: Self)
        ensures
            r@ == ExprV::Literal(LiteralV::Flo(s@)),
    {
        Expr::Literal(LiteralExpr::Flo(String::from_str(s)))
    }

    pub fn new_bool(b: bool) -> (r: Self)
        ensures
            r@ == ExprV::Literal(LiteralV::Bool(b)),
    {
        Expr::Literal(LiteralExpr::Bool(b))
    }

    pub fn new_null() -> (r: Self)
        ensures
            r@ == ExprV::Literal(LiteralV::Null),
    {
        Expr::Literal(LiteralExpr::Null())
    }

    pub fn new_add(left: Expr, right: Expr) -> (r: Self)
        ensures
            r@ == (ExprV::Binary {
                typ: BinaryExprType::Add(),
                left: Box::new(left@),
                right: Box::new(right@),
            }),
    {
        Expr::Binary(Box::new(BinaryExpr::new(left, right, BinaryExprType::Add())))
    }

    pub fn new_sub(left: Expr, right: Expr) -> (r: Self)
        ensures
            r@ == (ExprV::Binary {
                typ: BinaryExprType::Sub(),
                left: Box::new(left@),
                right: Box::new(right@),
            }),
    {
        Expr::Binary(Box::new(BinaryExpr::new(left, right, BinaryExprType::Sub())))
    }

    pub fn new_mult(left: Expr, right: Expr) -> (r: Self)
        ensures
            r@ == (ExprV::Binary {
                typ: BinaryExprType::Mult(),
                left: Box::new(left@),
                right: Box::new(right@),
            }),
    {
        Expr::Binary(Box::new(BinaryExpr::new(left, right, BinaryExprType::Mult())))
    }

    pub fn new_div(left: Expr, right: Expr) -> (r: Self)
        ensures
            r@ == (ExprV::Binary {
                typ: BinaryExprType::Div(),
                left: Box::new(left@),
                right: Box::new(right@),
            }),
    {
        Expr::Binary(Box::new(BinaryExpr::new(left, right, BinaryExprType::Div())))
    }

    pub fn new_compare_equals(left: Expr, right: Expr) -> (r: Self)
        ensures
            r@ == (ExprV::Binary {
                typ: BinaryExprType::Equals(),
                left: Box::new(left@),
                right: Box::new(right@),
            }),
    {
        Expr::Binary(Box::new(BinaryExpr::new(left, right, BinaryExprType::Equals())))
    }

    pub fn new_compare_not_equals(left: Expr, right: Expr) -> (r: Self)
        ensures
            r@ == (ExprV::Binary {
                typ: BinaryExprType::NotEquals(),
                left: Box::new(left@),
                right: Box::new(right@),
            }),
    {
        Expr::Binary(Box::new(BinaryExpr::new(left, right, BinaryExprType::NotEquals())))
    }

    pub fn new_compare_more(left: Expr, right: Expr) -> (r: Self)
        ensures
            r@ == (ExprV::Binary {
                typ: BinaryExprType::More(),
                left: Box::new(left@),
                right: Box::new(right@),
            }),
    {
        Expr::Binary(Box::new(BinaryExpr::new(left, right, BinaryExprType::More())))
    }

    pub fn new_compare_less(left: Expr, right: Expr) -> (r: Self)
        ensures
            r@ == (ExprV::Binary {
                typ: BinaryExprType::Less(),
                left: Box::new(left@),
                right: Box::new(right@),
            }),
    {
        Expr::Binary(Box::new(BinaryExpr::new(left, right, BinaryExprType::Less())))
    }

    pub fn new_compare_more_or_equals(left: Expr, right: Expr) -> (r: Self)
        ensures
            r@ == (ExprV::Binary {
                typ: BinaryExprType::MoreOrEquals(),
                left: Box::new(left@),
                right: Box::new(right@),
            }),
    {
        Expr::Binary(Box::new(BinaryExpr::new(left, right, BinaryExprType::MoreOrEquals())))
    }

    pub fn new_compare_less_or_equals(left: Expr, right: Expr) -> (r: Self)
        ensures
            r@ == (ExprV::Binary {
                typ: BinaryExprType::LessOrEquals(),
                left: Box::new(left@),
                right: Box::new(right@),
            }),
    {
        Expr::Binary(Box::new(BinaryExpr::new(left, right, BinaryExprType::LessOrEquals())))
    }

    pub fn new_concat(left: Expr, right: Expr) -> (r: Self)
        ensures
            r@ == (ExprV::Binary {
                typ: BinaryExprType::Concat(),
                left: Box::new(left@),
                right: Box::new(right@),
            }),
    {
        Expr::Binary(Box::new(BinaryExpr::new(left, right, BinaryExprType::Concat())))
    }

    pub fn new_and(left: Expr, right: Expr) -> (r: Self)
        ensures
            r@ == (ExprV::Binary {
                typ: BinaryExprType::And(),
                left: Box::new(left@),
                right: Box::new(right@),
            }),
    {
        Expr::Binary(Box::new(BinaryExpr::new(left, right, BinaryExprType::And())))
    }

    pub fn new_or(left: Expr, right: Expr) -> (r: Self)
        ensures
            r@ == (ExprV::Binary {
                typ: BinaryExprType::Or(),
                left: Box::new(left@),
                right: Box::new(right@),
            }),
    {
        Expr::Binary(Box::new(BinaryExpr::new(left, right, BinaryExprType::Or())))
    }

    /// The implication node, written `->` in source.
    pub fn new_logical_disjunction(left: Expr, right: Expr) -> (r: Self)
        ensures
            r@ == (ExprV::Binary {
                typ: BinaryExprType::Arrow(),
                left: Box::new(left@),
                right: Box::new(right@),
            }),
    {
        Expr::Binary(Box::new(BinaryExpr::new(left, right, BinaryExprType::Arrow())))
    }

    pub fn new_has(left: Expr, right: Expr) -> (r: Self)
        ensures
            r@ == (ExprV::Binary {
                typ: BinaryExprType::Has(),
                left: Box::new(left@),
                right: Box::new(right@),
            }),
    {
        Expr::Binary(Box::new(BinaryExpr::new(left, right, BinaryExprType::Has())))
    }

    pub fn new_update(left: Expr, right: Expr) -> (r: Self)
        ensures
            r@ == (ExprV::Binary {
                typ: BinaryExprType::Update(),
                left: Box::new(left@),
                right: Box::new(right@),
            }),
    {
        Expr::Binary(Box::new(BinaryExpr::new(left, right, BinaryExprType::Update())))
    }

    pub fn new_logical_negation(right: Expr) -> (r: Self)
        ensures
            r@ == (ExprV::Unary {
                typ: UnaryExprType::LogicalNegation(),
                right: Box::new(right@),
            }),
    {
        Expr::Unary(Box::new(UnaryExpr::new(right, UnaryExprType::LogicalNegation())))
    }

    pub fn new_arithmetic_negation(right: Expr) -> (r: Self)
        ensures
            r@ == (ExprV::Unary {
                typ: UnaryExprType::ArithmNegation(),
                right: Box::new(right@),
            }),
    {
        Expr::Unary(Box::new(UnaryExpr::new(right, UnaryExprType::ArithmNegation())))
    }

    pub fn new_ident(name: &str) -> (r: Self)
        ensures
            r@ == ExprV::Ident(name@),
    {
        Expr::Ident(IdentExpr::new(name))
    }

    pub fn new_binding(ident: IdentExpr, expr: Expr) -> (r: Self)
        ensures
            r@ == (ExprV::Binding { ident: ident.name@, expr: Box::new(expr@) }),
    {
        Expr::Binding(Box::new(BindingExpr::new(ident, expr)))
    }

    pub fn new_set(elems: Vec<(String, Expr)>) -> (r: Self)
        ensures
            r@ == ExprV::AttrSet(named_exprs_view(elems@)),
    {
        Expr::AttrSet(SetExpr::new(elems))
    }

    pub fn new_list(elems: Vec<Expr>) -> (r: Self)
        ensures
            r@ == ExprV::List(exprs_view(elems@)),
    {
        Expr::List(ListExpr::new(elems))
    }

    pub fn new_let(bindings: Vec<(IdentExpr, Expr)>, body: Expr) -> (r: Self)
        ensures
            r@ == (ExprV::Let { bindings: let_bindings_view(bindings@), body: Box::new(body@) }),
    {
        Expr::Let(Box::new(LetExpr::new(bindings, body)))
    }

    pub fn new_with(scope: Expr, expr: Expr) -> (r: Self)
        ensures
            r@ == (ExprV::With { scope: Box::new(scope@), expr: Box::new(expr@) }),
    {
        Expr::With(Box::new(WithExpr::new(scope, expr)))
    }

    pub fn new_if(cond: Expr, truthy: Expr, falsy: Expr) -> (r: Self)
        ensures
            r@ == (ExprV::If {
                cond: Box::new(cond@),
                truthy: Box::new(truthy@),
                falsy: Box::new(falsy@),
            }),
    {
        Expr::If(Box::new(IfExpr::new(cond, truthy, falsy)))
    }

    pub fn new_select(set: Expr, field: IdentExpr) -> (r: Self)
        ensures
            r@ == (ExprV::Select { set: Box::new(set@), field: field.name@ }),
    {
        Expr::Select(Box::new(SelectExpr::new(set, field)))
    }

    pub fn new_apply(func: Expr, arg: Expr) -> (r: Self)
        ensures
            r@ == (ExprV::Apply { func: Box::new(func@), arg: Box::new(arg@) }),
    {
        Expr::Apply(Box::new(ApplyExpr::new(func, arg)))
    }
}

/// An attribute set: an ordered name-to-expression mapping with unique keys.
#[derive(Debug, PartialEq)]
pub struct SetExpr {
    pub elems: Vec<(String, Expr)>,
}

impl SetExpr {
    pub fn new(elems: Vec<(String, Expr)>) -> (r: Self)
        ensures
            r@ == ExprV::AttrSet(named_exprs_view(elems@)),
    {
        Self { elems }
    }
}

impl View for SetExpr {
    type V = ExprV;

    open spec fn view(&self) -> ExprV {
        ExprV::AttrSet(named_exprs_view(self.elems@))
    }
}

/// A list: an ordered sequence of juxtaposed expressions.
#[derive(Debug, PartialEq)]
pub struct ListExpr {
    pub elems: Vec<Expr>,
}

impl ListExpr {
    pub fn new(elems: Vec<Expr>) -> (r: Self)
        ensures
            r@ == ExprV::List(exprs_view(elems@)),
    {
        Self { elems }
    }
}

impl View for ListExpr {
    type V = ExprV;

    open spec fn view(&self) -> ExprV {
        ExprV::List(exprs_view(self.elems@))
    }
}

/// A `with` construct: a scope expression and the body evaluated under it.
#[derive(Debug, PartialEq)]
pub struct WithExpr {
    pub scope: Expr,
    pub expr: Expr,
}

impl WithExpr {
    pub fn new(scope: Expr, expr: Expr) -> (r: Self)
        ensures
            r@ == (ExprV::With { scope: Box::new(scope@), expr: Box::new(expr@) }),
    {
        Self { scope, expr }
    }
}

impl View for WithExpr {
    type V = ExprV;

    open spec fn view(&self) -> ExprV {
        ExprV::With { scope: Box::new(self.scope@), expr: Box::new(self.expr@) }
    }
}

/// An `if`/`then`/`else` conditional.
#[derive(Debug, PartialEq)]
pub struct IfExpr {
    pub cond: Expr,
    pub truthy: Expr,
    pub falsy: Expr,
}

impl IfExpr {
    pub fn new(cond: Expr, truthy: Expr, falsy: Expr) -> (r: Self)
        ensures
            r@ == (ExprV::If {
                cond: Box::new(cond@),
                truthy: Box::new(truthy@),
                falsy: Box::new(falsy@),
            }),
    {
        Self { cond, truthy, falsy }
    }
}

impl View for IfExpr {
    type V = ExprV;

    open spec fn view(&self) -> ExprV {
        ExprV::If {
            cond: Box::new(self.cond@),
            truthy: Box::new(self.truthy@),
            falsy: Box::new(self.falsy@),
        }
    }
}

/// An attribute selection `target.field`.
#[derive(Debug, PartialEq)]
pub struct SelectExpr {
    pub set: Expr,
    pub field: IdentExpr,
}

impl SelectExpr {
    pub fn new(set: Expr, field: IdentExpr) -> (r: Self)
        ensures
            r@ == (ExprV::Select { set: Box::new(set@), field: field.name@ }),
    {
        Self { set, field }
    }
}

impl View for SelectExpr {
    type V = ExprV;

    open spec fn view(&self) -> ExprV {
        ExprV::Select { set: Box::new(self.set@), field: self.field.name@ }
    }
}

/// A function application by juxtaposition.
#[derive(Debug, PartialEq)]
pub struct ApplyExpr {
    pub func: Expr,
    pub arg: Expr,
}

impl ApplyExpr {
    pub fn new(func: Expr, arg: Expr) -> (r: Self)
        ensures
            r@ == (ExprV::Apply { func: Box::new(func@), arg: Box::new(arg@) }),
    {
        Self { func, arg }
    }
}

impl View for ApplyExpr {
    type V = ExprV;

    open spec fn view(&self) -> ExprV {
        ExprV::Apply { func: Box::new(self.func@), arg: Box::new(self.arg@) }
    }
}

/// A `let` construct: ordered bindings with unique identifiers, and a body.
#[derive(Debug, PartialEq)]
pub struct LetExpr {
    pub bindings: Vec<(IdentExpr, Expr)>,
    pub body: Expr,
}

impl LetExpr {
    pub fn new(bindings: Vec<(IdentExpr, Expr)>, body: Expr) -> (r: Self)
        ensures
            r@ == (ExprV::Let { bindings: let_bindings_view(bindings@), body: Box::new(body@) }),
    {
        Self { bindings, body }
    }
}

impl View for LetExpr {
    type V = ExprV;

    open spec fn view(&self) -> ExprV {
        ExprV::Let { bindings: let_bindings_view(self.bindings@), body: Box::new(self.body@) }
    }
}

/// The two prefix operators.
#[derive(Debug, PartialEq, Eq, Structural, Clone, Copy)]
pub enum UnaryExprType {
    LogicalNegation(),
    ArithmNegation(),
}

/// A prefix operator applied to one operand.
#[derive(Debug, PartialEq)]
pub struct UnaryExpr {
    pub right: Expr,
    pub typ: UnaryExprType,
}

impl UnaryExpr {
    pub fn new(right: Expr, typ: UnaryExprType) -> (r: Self)
        ensures
            r@ == (ExprV::Unary { typ: typ, right: Box::new(right@) }),
    {
        Self { right, typ }
    }
}

impl View for UnaryExpr {
    type V = ExprV;

    open spec fn view(&self) -> ExprV {
        ExprV::Unary { typ: self.typ, right: Box::new(self.right@) }
    }
}

/// The binary operator kinds, one per precedence rule.
#[derive(Debug, PartialEq, Eq, Structural, Clone, Copy)]
pub enum BinaryExprType {
    Add(),
    Sub(),
    Equals(),
    NotEquals(),
    More(),
    Less(),
    MoreOrEquals(),
    LessOrEquals(),
    Concat(),
    And(),
    Or(),
    Arrow(),
    Has(),
    Mult(),
    Div(),
    Update(),
}

/// A binary operator applied to two operands.
#[derive(Debug, PartialEq)]
pub struct BinaryExpr {
    pub left: Expr,
    pub right: Expr,
    pub typ: BinaryExprType,
}

impl BinaryExpr {
    pub fn new(left: Expr, right: Expr, typ: BinaryExprType) -> (r: Self)
        ensures
            r@ == (ExprV::Binary { typ: typ, left: Box::new(left@), right: Box::new(right@) }),
    {
        Self { left, right, typ }
    }
}

impl View for BinaryExpr {
    type V = ExprV;

    open spec fn view(&self) -> ExprV {
        ExprV::Binary {
            typ: self.typ,
            left: Box::new(self.left@),
            right: Box::new(self.right@),
        }
    }
}

/// One `ident = expr` binding.
#[derive(Debug, PartialEq)]
pub struct BindingExpr {
    pub ident: IdentExpr,
    pub expr: Expr,
}

impl BindingExpr {
    pub fn new(ident: IdentExpr, expr: Expr) -> (r: Self)
        ensures
            r.ident == ident,
            r.expr == expr,
    {
        Self { ident, expr }
    }
}

/// An identifier occurrence.
#[derive(Debug, PartialEq)]
pub struct IdentExpr {
    pub name: String,
}

impl IdentExpr {
    pub fn new(name: &str) -> (r: Self)
        ensures
            r.name@ == name@,
    {
        Self { name: String::from_str(name) }
    }
}

impl View for IdentExpr {
    type V = Seq<char>;

    open spec fn view(&self) -> Seq<char> {
        self.name@
    }
}

/// A bare integer literal value.
#[derive(Debug, PartialEq)]
pub struct IntExpr {
    val: i32,
}

impl IntExpr {
    pub fn new(val: i32) -> (r: Self)
        ensures
            r.spec_val() == val,
    {
        Self { val }
    }

    pub closed spec fn spec_val(&self) -> i32 {
        self.val
    }
}

/// A bare string literal value.
#[derive(Debug, PartialEq)]
pub struct StrExpr {
    val: String,
}

impl StrExpr {
    pub fn new(val: &str) -> (r: Self)
        ensures
            r.spec_val() == val@,
    {
        Self { val: String::from_str(val) }
    }

    pub closed spec fn spec_val(&self) -> Seq<char> {
        self.val@
    }
}

/// The literal expression kinds. Float literals carry their source text.
#[derive(Debug, PartialEq)]
pub enum LiteralExpr {
    Str(String),
    Path(String),
    NixPath(String),
    Int(i32),
    Flo(String),
    Bool(bool),
    Null(),
}

impl View for LiteralExpr {
    type V = LiteralV;

    open spec fn view(&self) -> LiteralV {
        match self {
            LiteralExpr::Str(s) => LiteralV::Str(s@),
            LiteralExpr::Path(s) => LiteralV::Path(s@),
            LiteralExpr::NixPath(s) => LiteralV::NixPath(s@),
            LiteralExpr::Int(i) => LiteralV::Int(*i),
            LiteralExpr::Flo(s) => LiteralV::Flo(s@),
            LiteralExpr::Bool(b) => LiteralV::Bool(*b),
            LiteralExpr::Null() => LiteralV::Null,
        }
    }
}

/// Lengths and elements of an expression-sequence image.
pub proof fn lemma_exprs_view_props(s: Seq<Expr>)
    ensures
        exprs_view(s).len() == s.len(),
        forall|i: int| 0 <= i < s.len() ==> exprs_view(s)[i] == s[i]@,
    decreases s.len(),
{
    if s.len() > 0 {
        lemma_exprs_view_props(s.drop_last());
    }
}

/// Lengths and elements of a named-binding-list image.
pub proof fn lemma_named_exprs_view_props(s: Seq<(String, Expr)>)
    ensures
        named_exprs_view(s).len() == s.len(),
        forall|i: int|
            0 <= i < s.len() ==> named_exprs_view(s)[i] == (s[i].0@, s[i].1@),
    decreases s.len(),
{
    if s.len() > 0 {
        lemma_named_exprs_view_props(s.drop_last());
    }
}

/// Lengths and elements of an identifier-binding-list image.
pub proof fn lemma_let_bindings_view_props(s: Seq<(IdentExpr, Expr)>)
    ensures
        let_bindings_view(s).len() == s.len(),
        forall|i: int|
            0 <= i < s.len() ==> let_bindings_view(s)[i] == (s[i].0.name@, s[i].1@),
    decreases s.len(),
{
    if s.len() > 0 {
        lemma_let_bindings_view_props(s.drop_last());
    }
}

/// Appending an expression appends its image.
pub proof fn lemma_exprs_view_push(s: Seq<Expr>, e: Expr)
    ensures
        exprs_view(s.push(e)) == exprs_view(s).push(e@),
{
    assert(s.push(e).drop_last() =~= s);
}

/// Appending a named binding appends its image.
pub proof fn lemma_named_exprs_view_push(s: Seq<(String, Expr)>, p: (String, Expr))
    ensures
        named_exprs_view(s.push(p)) == named_exprs_view(s).push((p.0@, p.1@)),
{
    assert(s.push(p).drop_last() =~= s);
}

/// Appending an identifier binding appends its image.
pub proof fn lemma_let_bindings_view_push(s: Seq<(IdentExpr, Expr)>, p: (IdentExpr, Expr))
    ensures
        let_bindings_view(s.push(p)) == let_bindings_view(s).push((p.0.name@, p.1@)),
{
    assert(s.push(p).drop_last() =~= s);
}

} // verus!
