//! The parser: recursive descent with precedence climbing over the token
//! sequence, building one abstract syntax tree.
//!
//! Precedence tiers, lowest to highest binding: implication, logical-or,
//! logical-and, (in)equality, relational comparison, set-update merge,
//! prefix logical-not, additive, multiplicative, concatenation,
//! set-membership test, prefix arithmetic negation, function application by
//! juxtaposition, attribute selection, primary terms. Each tier is
//! left-associative: repeated operators at one tier nest left.
//!
//! The `spec_parse_*` functions are the reference grammar. Each carries the
//! same two-part termination measure: the unread suffix of the token
//! sequence, then a tier rank for the calls that stay at one position. The
//! `next_from` clamp keeps continuation positions inside the window that
//! guarantees progress; every parse function returns positions already
//! inside it, so the clamp is the identity in all reachable cases.

#![verifier::loop_isolation(false)]

use vstd::prelude::*;
use crate::ast::{
    expr_view, exprs_view, lemma_exprs_view_push, lemma_let_bindings_view_props,
    lemma_let_bindings_view_push, lemma_named_exprs_view_props, lemma_named_exprs_view_push,
    let_bindings_view, named_exprs_view, BindingExpr, Expr, ExprV, IdentExpr, LiteralV,
};
use crate::lexer::{toks_view, ParseErrV, TokenStreamErrors, UnexpectedTokenError};
use crate::tokens::{
    AdditiveOperator, ArithmComparison, LogicalComparison, MultiplicativeOperator, TokenType,
    TokenV,
};
use crate::ast::{BinaryExprType, UnaryExprType};

verus! {

/// The abstract syntax tree of one whole expression.
pub type Ast = Expr;

/// The outcome of one reference parse: the parsed node and the position
/// after it, or the syntax failure.
pub type SpecParsed = Result<(ExprV, int), ParseErrV>;

/// Clamps a continuation position into `[lo, hi]`. Parse functions return
/// positions strictly past their start and at most the sequence's length, so
/// at every use the clamp is the identity; it only carries that bound into
/// the termination measure.
pub open spec fn next_from(j: int, lo: int, hi: int) -> int {
    if j > hi || lo > hi {
        hi
    } else if j < lo {
        lo
    } else {
        j
    }
}

/// Inserts `(k, v)` into an ordered unique-key binding list: a duplicate key
/// overwrites the earlier value in place, a new key is appended.
pub open spec fn upsert(
    s: Seq<(Seq<char>, ExprV)>,
    k: Seq<char>,
    v: ExprV,
) -> Seq<(Seq<char>, ExprV)>
    decreases s.len(),
{
    if s.len() == 0 {
        seq![(k, v)]
    } else if s.first().0 == k {
        seq![(k, v)] + s.drop_first()
    } else {
        seq![s.first()] + upsert(s.drop_first(), k, v)
    }
}

/// A token that can start a primary term, for the bounded lookahead that
/// drives function application.
pub open spec fn spec_term_start(t: TokenV) -> bool {
    match t {
        TokenV::Ident(_) => true,
        TokenV::OpenParen => true,
        TokenV::OpenBrace => true,
        TokenV::OpenSquare => true,
        TokenV::Int(_) => true,
        TokenV::Flo(_) => true,
        TokenV::Path(_) => true,
        TokenV::NixPath(_) => true,
        _ => false,
    }
}

/// A node that may stand as the function of an application: an identifier,
/// `with`, `let`, a selection, or an earlier application.
pub open spec fn spec_app_qualifies(e: ExprV) -> bool {
    match e {
        ExprV::Ident(_) => true,
        ExprV::With { .. } => true,
        ExprV::Let { .. } => true,
        ExprV::Select { .. } => true,
        ExprV::Apply { .. } => true,
        _ => false,
    }
}

/// A node whose selection chain may be extended by `.field`: an identifier
/// or a set literal.
pub open spec fn spec_sel_qualifies(e: ExprV) -> bool {
    match e {
        ExprV::Ident(_) => true,
        ExprV::AttrSet(_) => true,
        _ => false,
    }
}

/// An expression: `let`, `with` and `if` parse as themselves, anything else
/// enters the precedence climb at its lowest tier.
pub open spec fn spec_parse_expr(ts: Seq<TokenV>, i: int) -> SpecParsed
    decreases ts.len() - i, 40int,
{
    if i < 0 || i >= ts.len() {
        Err(ParseErrV::UnexpectedEof)
    } else {
        match ts[i] {
            TokenV::Let => spec_parse_let(ts, i),
            TokenV::With => spec_parse_with(ts, i),
            TokenV::If => spec_parse_if(ts, i),
            _ => spec_parse_arrow(ts, i),
        }
    }
}

/// The implication tier: `a -> b -> c` folds left into `Arrow` nodes.
pub open spec fn spec_parse_arrow(ts: Seq<TokenV>, i: int) -> SpecParsed
    decreases ts.len() - i, 30int,
{
    if i < 0 || i >= ts.len() {
        Err(ParseErrV::UnexpectedEof)
    } else {
        match spec_parse_or(ts, i) {
            Ok((left, j)) => spec_parse_arrow_tail(ts, next_from(j, i + 1, ts.len() as int), left),
            Err(e) => Err(e),
        }
    }
}

pub open spec fn spec_parse_arrow_tail(ts: Seq<TokenV>, i: int, left: ExprV) -> SpecParsed
    decreases ts.len() - i, 0int,
{
    if 0 <= i < ts.len() && ts[i] == TokenV::LogImpl {
        match spec_parse_or(ts, i + 1) {
            Ok((right, j)) => spec_parse_arrow_tail(
                ts,
                next_from(j, i + 2, ts.len() as int),
                ExprV::Binary {
                    typ: BinaryExprType::Arrow(),
                    left: Box::new(left),
                    right: Box::new(right),
                },
            ),
            Err(e) => Err(e),
        }
    } else {
        Ok((left, i))
    }
}

/// The logical-or tier.
pub open spec fn spec_parse_or(ts: Seq<TokenV>, i: int) -> SpecParsed
    decreases ts.len() - i, 28int,
{
    if i < 0 || i >= ts.len() {
        Err(ParseErrV::UnexpectedEof)
    } else {
        match spec_parse_and(ts, i) {
            Ok((left, j)) => spec_parse_or_tail(ts, next_from(j, i + 1, ts.len() as int), left),
            Err(e) => Err(e),
        }
    }
}

pub open spec fn spec_parse_or_tail(ts: Seq<TokenV>, i: int, left: ExprV) -> SpecParsed
    decreases ts.len() - i, 0int,
{
    if 0 <= i < ts.len() && ts[i] == TokenV::Or {
        match spec_parse_and(ts, i + 1) {
            Ok((right, j)) => spec_parse_or_tail(
                ts,
                next_from(j, i + 2, ts.len() as int),
                ExprV::Binary {
                    typ: BinaryExprType::Or(),
                    left: Box::new(left),
                    right: Box::new(right),
                },
            ),
            Err(e) => Err(e),
        }
    } else {
        Ok((left, i))
    }
}

/// The logical-and tier.
pub open spec fn spec_parse_and(ts: Seq<TokenV>, i: int) -> SpecParsed
    decreases ts.len() - i, 26int,
{
    if i < 0 || i >= ts.len() {
        Err(ParseErrV::UnexpectedEof)
    } else {
        match spec_parse_logical_comparison(ts, i) {
            Ok((left, j)) => spec_parse_and_tail(ts, next_from(j, i + 1, ts.len() as int), left),
            Err(e) => Err(e),
        }
    }
}

pub open spec fn spec_parse_and_tail(ts: Seq<TokenV>, i: int, left: ExprV) -> SpecParsed
    decreases ts.len() - i, 0int,
{
    if 0 <= i < ts.len() && ts[i] == TokenV::And {
        match spec_parse_logical_comparison(ts, i + 1) {
            Ok((right, j)) => spec_parse_and_tail(
                ts,
                next_from(j, i + 2, ts.len() as int),
                ExprV::Binary {
                    typ: BinaryExprType::And(),
                    left: Box::new(left),
                    right: Box::new(right),
                },
            ),
            Err(e) => Err(e),
        }
    } else {
        Ok((left, i))
    }
}

/// The (in)equality comparison tier.
pub open spec fn spec_parse_logical_comparison(ts: Seq<TokenV>, i: int) -> SpecParsed
    decreases ts.len() - i, 24int,
{
    if i < 0 || i >= ts.len() {
        Err(ParseErrV::UnexpectedEof)
    } else {
        match spec_parse_arithm_comparison(ts, i) {
            Ok((left, j)) => spec_parse_logical_comparison_tail(
                ts,
                next_from(j, i + 1, ts.len() as int),
                left,
            ),
            Err(e) => Err(e),
        }
    }
}

pub open spec fn spec_parse_logical_comparison_tail(
    ts: Seq<TokenV>,
    i: int,
    left: ExprV,
) -> SpecParsed
    decreases ts.len() - i, 0int,
{
    if 0 <= i < ts.len() && (ts[i] matches TokenV::LogicalComparison(_)) {
        match spec_parse_arithm_comparison(ts, i + 1) {
            Ok((right, j)) => spec_parse_logical_comparison_tail(
                ts,
                next_from(j, i + 2, ts.len() as int),
                ExprV::Binary {
                    typ: if ts[i] == TokenV::LogicalComparison(LogicalComparison::CompareEquals) {
                        BinaryExprType::Equals()
                    } else {
                        BinaryExprType::NotEquals()
                    },
                    left: Box::new(left),
                    right: Box::new(right),
                },
            ),
            Err(e) => Err(e),
        }
    } else {
        Ok((left, i))
    }
}

/// The relational comparison tier (`<`, `>`, `<=`, `>=`).
pub open spec fn spec_parse_arithm_comparison(ts: Seq<TokenV>, i: int) -> SpecParsed
    decreases ts.len() - i, 22int,
{
    if i < 0 || i >= ts.len() {
        Err(ParseErrV::UnexpectedEof)
    } else {
        match spec_parse_update(ts, i) {
            Ok((left, j)) => spec_parse_arithm_comparison_tail(
                ts,
                next_from(j, i + 1, ts.len() as int),
                left,
            ),
            Err(e) => Err(e),
        }
    }
}

/// The binary node kind of one relational comparison operator.
pub open spec fn arithm_comparison_typ(op: ArithmComparison) -> BinaryExprType {
    match op {
        ArithmComparison::More => BinaryExprType::More(),
        ArithmComparison::Less => BinaryExprType::Less(),
        ArithmComparison::MoreOrEquals => BinaryExprType::MoreOrEquals(),
        ArithmComparison::LessOrEquals => BinaryExprType::LessOrEquals(),
    }
}

pub open spec fn spec_parse_arithm_comparison_tail(
    ts: Seq<TokenV>,
    i: int,
    left: ExprV,
) -> SpecParsed
    decreases ts.len() - i, 0int,
{
    if 0 <= i < ts.len() && (ts[i] matches TokenV::ArithmComparison(op)) {
        match spec_parse_update(ts, i + 1) {
            Ok((right, j)) => spec_parse_arithm_comparison_tail(
                ts,
                next_from(j, i + 2, ts.len() as int),
                ExprV::Binary {
                    typ: arithm_comparison_typ(ts[i]->ArithmComparison_0),
                    left: Box::new(left),
                    right: Box::new(right),
                },
            ),
            Err(e) => Err(e),
        }
    } else {
        Ok((left, i))
    }
}

/// The set-update merge tier (`//`).
pub open spec fn spec_parse_update(ts: Seq<TokenV>, i: int) -> SpecParsed
    decreases ts.len() - i, 20int,
{
    if i < 0 || i >= ts.len() {
        Err(ParseErrV::UnexpectedEof)
    } else {
        match spec_parse_not(ts, i) {
            Ok((left, j)) => spec_parse_update_tail(ts, next_from(j, i + 1, ts.len() as int), left),
            Err(e) => Err(e),
        }
    }
}

pub open spec fn spec_parse_update_tail(ts: Seq<TokenV>, i: int, left: ExprV) -> SpecParsed
    decreases ts.len() - i, 0int,
{
    if 0 <= i < ts.len() && ts[i] == TokenV::Update {
        match spec_parse_not(ts, i + 1) {
            Ok((right, j)) => spec_parse_update_tail(
                ts,
                next_from(j, i + 2, ts.len() as int),
                ExprV::Binary {
                    typ: BinaryExprType::Update(),
                    left: Box::new(left),
                    right: Box::new(right),
                },
            ),
            Err(e) => Err(e),
        }
    } else {
        Ok((left, i))
    }
}

/// The prefix logical-not tier.
pub open spec fn spec_parse_not(ts: Seq<TokenV>, i: int) -> SpecParsed
    decreases ts.len() - i, 18int,
{
    if 0 <= i < ts.len() && ts[i] == TokenV::LogicalNegation {
        match spec_parse_additive(ts, i + 1) {
            Ok((right, j)) => Ok(
                (
                    ExprV::Unary {
                        typ: UnaryExprType::LogicalNegation(),
                        right: Box::new(right),
                    },
                    j,
                ),
            ),
            Err(e) => Err(e),
        }
    } else {
        spec_parse_additive(ts, i)
    }
}

/// The additive tier (`+`, `-`).
pub open spec fn spec_parse_additive(ts: Seq<TokenV>, i: int) -> SpecParsed
    decreases ts.len() - i, 16int,
{
    if i < 0 || i >= ts.len() {
        Err(ParseErrV::UnexpectedEof)
    } else {
        match spec_parse_multiplicative(ts, i) {
            Ok((left, j)) => spec_parse_additive_tail(ts, next_from(j, i + 1, ts.len() as int), left),
            Err(e) => Err(e),
        }
    }
}

pub open spec fn spec_parse_additive_tail(ts: Seq<TokenV>, i: int, left: ExprV) -> SpecParsed
    decreases ts.len() - i, 0int,
{
    if 0 <= i < ts.len() && (ts[i] matches TokenV::AdditiveOperator(op)) {
        match spec_parse_multiplicative(ts, i + 1) {
            Ok((right, j)) => spec_parse_additive_tail(
                ts,
                next_from(j, i + 2, ts.len() as int),
                ExprV::Binary {
                    typ: if ts[i] == TokenV::AdditiveOperator(AdditiveOperator::Add) {
                        BinaryExprType::Add()
                    } else {
                        BinaryExprType::Sub()
                    },
                    left: Box::new(left),
                    right: Box::new(right),
                },
            ),
            Err(e) => Err(e),
        }
    } else {
        Ok((left, i))
    }
}

/// The multiplicative tier (`*`, `/`).
pub open spec fn spec_parse_multiplicative(ts: Seq<TokenV>, i: int) -> SpecParsed
    decreases ts.len() - i, 14int,
{
    if i < 0 || i >= ts.len() {
        Err(ParseErrV::UnexpectedEof)
    } else {
        match spec_parse_concat(ts, i) {
            Ok((left, j)) => spec_parse_multiplicative_tail(
                ts,
                next_from(j, i + 1, ts.len() as int),
                left,
            ),
            Err(e) => Err(e),
        }
    }
}

pub open spec fn spec_parse_multiplicative_tail(ts: Seq<TokenV>, i: int, left: ExprV) -> SpecParsed
    decreases ts.len() - i, 0int,
{
    if 0 <= i < ts.len() && (ts[i] matches TokenV::MultiplicativeOperator(op)) {
        match spec_parse_concat(ts, i + 1) {
            Ok((right, j)) => spec_parse_multiplicative_tail(
                ts,
                next_from(j, i + 2, ts.len() as int),
                ExprV::Binary {
                    typ: if ts[i] == TokenV::MultiplicativeOperator(MultiplicativeOperator::Mult) {
                        BinaryExprType::Mult()
                    } else {
                        BinaryExprType::Div()
                    },
                    left: Box::new(left),
                    right: Box::new(right),
                },
            ),
            Err(e) => Err(e),
        }
    } else {
        Ok((left, i))
    }
}

/// The concatenation tier (`++`).
pub open spec fn spec_parse_concat(ts: Seq<TokenV>, i: int) -> SpecParsed
    decreases ts.len() - i, 12int,
{
    if i < 0 || i >= ts.len() {
        Err(ParseErrV::UnexpectedEof)
    } else {
        match spec_parse_arithm_negation(ts, i) {
            Ok((left, j)) => spec_parse_concat_tail(ts, next_from(j, i + 1, ts.len() as int), left),
            Err(e) => Err(e),
        }
    }
}

pub open spec fn spec_parse_concat_tail(ts: Seq<TokenV>, i: int, left: ExprV) -> SpecParsed
    decreases ts.len() - i, 0int,
{
    if 0 <= i < ts.len() && ts[i] == TokenV::Concat {
        match spec_parse_arithm_negation(ts, i + 1) {
            Ok((right, j)) => spec_parse_concat_tail(
                ts,
                next_from(j, i + 2, ts.len() as int),
                ExprV::Binary {
                    typ: BinaryExprType::Concat(),
                    left: Box::new(left),
                    right: Box::new(right),
                },
            ),
            Err(e) => Err(e),
        }
    } else {
        Ok((left, i))
    }
}

/// The prefix arithmetic negation tier.
pub open spec fn spec_parse_arithm_negation(ts: Seq<TokenV>, i: int) -> SpecParsed
    decreases ts.len() - i, 10int,
{
    if 0 <= i < ts.len() && ts[i] == TokenV::ArithmNegation {
        match spec_parse_has(ts, i + 1) {
            Ok((right, j)) => Ok(
                (ExprV::Unary { typ: UnaryExprType::ArithmNegation(), right: Box::new(right) }, j),
            ),
            Err(e) => Err(e),
        }
    } else {
        spec_parse_has(ts, i)
    }
}

/// The set-membership test tier (`?`).
pub open spec fn spec_parse_has(ts: Seq<TokenV>, i: int) -> SpecParsed
    decreases ts.len() - i, 8int,
{
    if i < 0 || i >= ts.len() {
        Err(ParseErrV::UnexpectedEof)
    } else {
        match spec_parse_application(ts, i) {
            Ok((left, j)) => spec_parse_has_tail(ts, next_from(j, i + 1, ts.len() as int), left),
            Err(e) => Err(e),
        }
    }
}

pub open spec fn spec_parse_has_tail(ts: Seq<TokenV>, i: int, left: ExprV) -> SpecParsed
    decreases ts.len() - i, 0int,
{
    if 0 <= i < ts.len() && ts[i] == TokenV::Has {
        match spec_parse_application(ts, i + 1) {
            Ok((right, j)) => spec_parse_has_tail(
                ts,
                next_from(j, i + 2, ts.len() as int),
                ExprV::Binary {
                    typ: BinaryExprType::Has(),
                    left: Box::new(left),
                    right: Box::new(right),
                },
            ),
            Err(e) => Err(e),
        }
    } else {
        Ok((left, i))
    }
}

/// Function application by juxtaposition: after a qualifying node, each
/// following token that can start a term begins another selection-level
/// operand, folded into a left-nested `Apply`. An application not followed
/// by `;`, `?` or the input's end is malformed.
pub open spec fn spec_parse_application(ts: Seq<TokenV>, i: int) -> SpecParsed
    decreases ts.len() - i, 6int,
{
    if i < 0 || i >= ts.len() {
        Err(ParseErrV::UnexpectedEof)
    } else {
        match spec_parse_selection(ts, i) {
            Ok((e, j)) => if spec_app_qualifies(e) {
                spec_parse_application_tail(ts, next_from(j, i + 1, ts.len() as int), e)
            } else {
                Ok((e, j))
            },
            Err(e) => Err(e),
        }
    }
}

pub open spec fn spec_parse_application_tail(ts: Seq<TokenV>, i: int, func: ExprV) -> SpecParsed
    decreases ts.len() - i, 5int,
{
    if 0 <= i < ts.len() && spec_term_start(ts[i]) {
        match spec_parse_selection(ts, i) {
            Ok((arg, j)) => spec_parse_application_tail(
                ts,
                next_from(j, i + 1, ts.len() as int),
                ExprV::Apply { func: Box::new(func), arg: Box::new(arg) },
            ),
            Err(e) => Err(e),
        }
    } else if func matches ExprV::Apply { .. } {
        if i >= ts.len() || ts[i] == TokenV::Semicolon || ts[i] == TokenV::Has {
            Ok((func, i))
        } else {
            Err(ParseErrV::UnexpectedToken { expected: TokenV::Semicolon, got: ts[i] })
        }
    } else {
        Ok((func, i))
    }
}

/// Attribute selection: an identifier or set literal followed by `.field`
/// chains folds into left-nested `Select` nodes; a non-identifier after `.`
/// is malformed.
pub open spec fn spec_parse_selection(ts: Seq<TokenV>, i: int) -> SpecParsed
    decreases ts.len() - i, 4int,
{
    if i < 0 || i >= ts.len() {
        Err(ParseErrV::UnexpectedEof)
    } else {
        match spec_parse_term(ts, i) {
            Ok((obj, j)) => if spec_sel_qualifies(obj) {
                spec_parse_selection_tail(ts, next_from(j, i + 1, ts.len() as int), obj)
            } else {
                Ok((obj, j))
            },
            Err(e) => Err(e),
        }
    }
}

pub open spec fn spec_parse_selection_tail(ts: Seq<TokenV>, i: int, obj: ExprV) -> SpecParsed
    decreases ts.len() - i, 0int,
{
    if 0 <= i < ts.len() && ts[i] == TokenV::Access {
        if i + 1 < ts.len() {
            match ts[i + 1] {
                TokenV::Ident(name) => spec_parse_selection_tail(
                    ts,
                    i + 2,
                    ExprV::Select { set: Box::new(obj), field: name },
                ),
                _ => Err(
                    ParseErrV::UnexpectedToken {
                        expected: TokenV::Ident(Seq::empty()),
                        got: ts[i + 1],
                    },
                ),
            }
        } else {
            Err(ParseErrV::UnexpectedEof)
        }
    } else {
        Ok((obj, i))
    }
}

/// A primary term: an identifier, a literal of any kind, a list, a set, a
/// parenthesized sub-expression, or a `let`, `with` or `if` construct. A
/// missing term is reported with an empty-named identifier as the expected
/// token.
pub open spec fn spec_parse_term(ts: Seq<TokenV>, i: int) -> SpecParsed
    decreases ts.len() - i, 2int,
{
    if i < 0 || i >= ts.len() {
        Err(ParseErrV::UnexpectedEof)
    } else {
        match ts[i] {
            TokenV::Ident(v) => Ok((ExprV::Ident(v), i + 1)),
            TokenV::StrLiteral(v) => Ok((ExprV::Literal(LiteralV::Str(v)), i + 1)),
            TokenV::Path(v) => Ok((ExprV::Literal(LiteralV::Path(v)), i + 1)),
            TokenV::NixPath(v) => Ok((ExprV::Literal(LiteralV::NixPath(v)), i + 1)),
            TokenV::Int(v) => Ok((ExprV::Literal(LiteralV::Int(v)), i + 1)),
            TokenV::Flo(v) => Ok((ExprV::Literal(LiteralV::Flo(v)), i + 1)),
            TokenV::Bool(b) => Ok((ExprV::Literal(LiteralV::Bool(b)), i + 1)),
            TokenV::Null => Ok((ExprV::Literal(LiteralV::Null), i + 1)),
            TokenV::OpenSquare => spec_parse_list(ts, i + 1, Seq::empty()),
            TokenV::OpenBrace => spec_parse_set(ts, i + 1, Seq::empty()),
            TokenV::OpenParen => match spec_parse_expr(ts, i + 1) {
                Ok((e, j)) => if 0 <= j < ts.len() {
                    if ts[j] == TokenV::CloseParen {
                        Ok((e, j + 1))
                    } else {
                        Err(
                            ParseErrV::UnexpectedToken {
                                expected: TokenV::CloseParen,
                                got: ts[j],
                            },
                        )
                    }
                } else {
                    Err(ParseErrV::UnexpectedEof)
                },
                Err(e) => Err(e),
            },
            TokenV::Let => spec_parse_let(ts, i),
            TokenV::With => spec_parse_with(ts, i),
            TokenV::If => spec_parse_if(ts, i),
            _ => Err(
                ParseErrV::UnexpectedToken { expected: TokenV::Ident(Seq::empty()), got: ts[i] },
            ),
        }
    }
}

/// A `let`: bindings collected until the `in` keyword (duplicate keys
/// overwrite), then the body.
pub open spec fn spec_parse_let(ts: Seq<TokenV>, i: int) -> SpecParsed
    decreases ts.len() - i, 1int,
{
    if 0 <= i < ts.len() {
        spec_parse_let_tail(ts, i + 1, Seq::empty())
    } else {
        Err(ParseErrV::UnexpectedEof)
    }
}

pub open spec fn spec_parse_let_tail(
    ts: Seq<TokenV>,
    i: int,
    acc: Seq<(Seq<char>, ExprV)>,
) -> SpecParsed
    decreases ts.len() - i, 1int,
{
    if i < 0 || i >= ts.len() {
        Err(ParseErrV::UnexpectedEof)
    } else if ts[i] == TokenV::In {
        match spec_parse_expr(ts, i + 1) {
            Ok((body, j)) => Ok((ExprV::Let { bindings: acc, body: Box::new(body) }, j)),
            Err(e) => Err(e),
        }
    } else {
        match spec_parse_binding(ts, i) {
            Ok(((name, ev), j)) => spec_parse_let_tail(
                ts,
                next_from(j, i + 1, ts.len() as int),
                upsert(acc, name, ev),
            ),
            Err(e) => Err(e),
        }
    }
}

/// One `ident = expr ;` binding.
pub open spec fn spec_parse_binding(ts: Seq<TokenV>, i: int) -> Result<
    ((Seq<char>, ExprV), int),
    ParseErrV,
>
    decreases ts.len() - i, 0int,
{
    if i < 0 || i >= ts.len() {
        Err(ParseErrV::UnexpectedEof)
    } else {
        match ts[i] {
            TokenV::Ident(name) => if i + 1 < ts.len() {
                if ts[i + 1] == TokenV::Assign {
                    match spec_parse_expr(ts, i + 2) {
                        Ok((ev, j)) => if 0 <= j < ts.len() {
                            if ts[j] == TokenV::Semicolon {
                                Ok(((name, ev), j + 1))
                            } else {
                                Err(
                                    ParseErrV::UnexpectedToken {
                                        expected: TokenV::Semicolon,
                                        got: ts[j],
                                    },
                                )
                            }
                        } else {
                            Err(ParseErrV::UnexpectedEof)
                        },
                        Err(e) => Err(e),
                    }
                } else {
                    Err(
                        ParseErrV::UnexpectedToken { expected: TokenV::Assign, got: ts[i + 1] },
                    )
                }
            } else {
                Err(ParseErrV::UnexpectedEof)
            },
            _ => Err(
                ParseErrV::UnexpectedToken { expected: TokenV::Ident(Seq::empty()), got: ts[i] },
            ),
        }
    }
}

/// A `with`: the scope is an identifier or a set literal, then `;`, then
/// the body.
pub open spec fn spec_parse_with(ts: Seq<TokenV>, i: int) -> SpecParsed
    decreases ts.len() - i, 1int,
{
    if i < 0 || i >= ts.len() {
        Err(ParseErrV::UnexpectedEof)
    } else if i + 1 >= ts.len() {
        Err(ParseErrV::UnexpectedEof)
    } else {
        match ts[i + 1] {
            TokenV::Ident(name) => if i + 2 < ts.len() {
                if ts[i + 2] == TokenV::Semicolon {
                    match spec_parse_expr(ts, i + 3) {
                        Ok((body, j)) => Ok(
                            (
                                ExprV::With {
                                    scope: Box::new(ExprV::Ident(name)),
                                    expr: Box::new(body),
                                },
                                j,
                            ),
                        ),
                        Err(e) => Err(e),
                    }
                } else {
                    Err(
                        ParseErrV::UnexpectedToken { expected: TokenV::Semicolon, got: ts[i + 2] },
                    )
                }
            } else {
                Err(ParseErrV::UnexpectedEof)
            },
            TokenV::OpenBrace => match spec_parse_set(ts, i + 2, Seq::empty()) {
                Ok((scope, j)) => if 0 <= j < ts.len() {
                    if ts[j] == TokenV::Semicolon {
                        match spec_parse_expr(ts, next_from(j + 1, i + 3, ts.len() as int)) {
                            Ok((body, k)) => Ok(
                                (
                                    ExprV::With { scope: Box::new(scope), expr: Box::new(body) },
                                    k,
                                ),
                            ),
                            Err(e) => Err(e),
                        }
                    } else {
                        Err(
                            ParseErrV::UnexpectedToken {
                                expected: TokenV::Semicolon,
                                got: ts[j],
                            },
                        )
                    }
                } else {
                    Err(ParseErrV::UnexpectedEof)
                },
                Err(e) => Err(e),
            },
            _ => Err(
                ParseErrV::UnexpectedToken {
                    expected: TokenV::Ident(Seq::empty()),
                    got: ts[i + 1],
                },
            ),
        }
    }
}

/// A set literal: `ident = expr ;` bindings (duplicate keys overwrite)
/// until the closing brace.
pub open spec fn spec_parse_set(
    ts: Seq<TokenV>,
    i: int,
    acc: Seq<(Seq<char>, ExprV)>,
) -> SpecParsed
    decreases ts.len() - i, 1int,
{
    if i < 0 || i >= ts.len() {
        Err(ParseErrV::UnexpectedEof)
    } else if ts[i] == TokenV::CloseBrace {
        Ok((ExprV::AttrSet(acc), i + 1))
    } else {
        match spec_parse_binding(ts, i) {
            Ok(((name, ev), j)) => spec_parse_set(
                ts,
                next_from(j, i + 1, ts.len() as int),
                upsert(acc, name, ev),
            ),
            Err(e) => Err(e),
        }
    }
}

/// A list literal: juxtaposed terms until the closing bracket.
pub open spec fn spec_parse_list(ts: Seq<TokenV>, i: int, acc: Seq<ExprV>) -> SpecParsed
    decreases ts.len() - i, 3int,
{
    if i < 0 || i >= ts.len() {
        Err(ParseErrV::UnexpectedEof)
    } else if ts[i] == TokenV::CloseSquare {
        Ok((ExprV::List(acc), i + 1))
    } else {
        match spec_parse_term(ts, i) {
            Ok((ev, j)) => spec_parse_list(ts, next_from(j, i + 1, ts.len() as int), acc.push(ev)),
            Err(e) => Err(e),
        }
    }
}

/// An `if cond then expr else expr` conditional; a missing `then` or `else`
/// is malformed.
pub open spec fn spec_parse_if(ts: Seq<TokenV>, i: int) -> SpecParsed
    decreases ts.len() - i, 1int,
{
    if i < 0 || i >= ts.len() {
        Err(ParseErrV::UnexpectedEof)
    } else {
        match spec_parse_expr(ts, i + 1) {
            Ok((cond, j0)) => {
                let j = next_from(j0, i + 2, ts.len() as int);
                if j >= ts.len() {
                    Err(ParseErrV::UnexpectedEof)
                } else if ts[j] != TokenV::Then {
                    Err(ParseErrV::UnexpectedToken { expected: TokenV::Then, got: ts[j] })
                } else {
                    match spec_parse_expr(ts, j + 1) {
                        Ok((truthy, k0)) => {
                            let k = next_from(k0, j + 2, ts.len() as int);
                            if k >= ts.len() {
                                Err(ParseErrV::UnexpectedEof)
                            } else if ts[k] != TokenV::Else {
                                Err(
                                    ParseErrV::UnexpectedToken {
                                        expected: TokenV::Else,
                                        got: ts[k],
                                    },
                                )
                            } else {
                                match spec_parse_expr(ts, k + 1) {
                                    Ok((falsy, m)) => Ok(
                                        (
                                            ExprV::If {
                                                cond: Box::new(cond),
                                                truthy: Box::new(truthy),
                                                falsy: Box::new(falsy),
                                            },
                                            m,
                                        ),
                                    ),
                                    Err(e) => Err(e),
                                }
                            }
                        },
                        Err(e) => Err(e),
                    }
                }
            },
            Err(e) => Err(e),
        }
    }
}

/// Relates one executable parse outcome to the reference parse: a success
/// returns exactly the reference node and stops exactly at the reference
/// position, strictly past the start; a failure returns exactly the
/// reference error.
pub open spec fn parse_outcome_ok(
    tv: Seq<TokenV>,
    pos: int,
    sr: SpecParsed,
    r: Result<(Expr, usize), TokenStreamErrors>,
) -> bool {
    match r {
        Ok((e, j)) => sr == Ok::<(ExprV, int), ParseErrV>((e@, j as int)) && pos < j <= tv.len(),
        Err(er) => sr == Err::<(ExprV, int), ParseErrV>(er@),
    }
}

/// Overwriting the first binding whose key matches is an in-place update.
proof fn lemma_upsert_found(s: Seq<(Seq<char>, ExprV)>, k: Seq<char>, v: ExprV, m: int)
    requires
        0 <= m < s.len(),
        s[m].0 == k,
        forall|t: int| 0 <= t < m ==> s[t].0 != k,
    ensures
        upsert(s, k, v) =~= s.update(m, (k, v)),
    decreases m,
{
    if m == 0 {
        assert(seq![(k, v)] + s.drop_first() =~= s.update(0, (k, v)));
    } else {
        assert(s[0].0 != k);
        lemma_upsert_found(s.drop_first(), k, v, m - 1);
        assert(seq![s.first()] + s.drop_first().update(m - 1, (k, v)) =~= s.update(m, (k, v)));
    }
}

/// Inserting a key no binding holds appends it.
proof fn lemma_upsert_missing(s: Seq<(Seq<char>, ExprV)>, k: Seq<char>, v: ExprV)
    requires
        forall|t: int| 0 <= t < s.len() ==> s[t].0 != k,
    ensures
        upsert(s, k, v) =~= s.push((k, v)),
    decreases s.len(),
{
    if s.len() == 0 {
        assert(upsert(s, k, v) =~= s.push((k, v)));
    } else {
        assert(s[0].0 != k);
        lemma_upsert_missing(s.drop_first(), k, v);
        assert(seq![s.first()] + s.drop_first().push((k, v)) =~= s.push((k, v)));
    }
}

/// Inserts a binding into a set literal under construction: a duplicate key
/// overwrites the earlier value in place, a new key is appended.
#[verifier::rlimit(30)]
fn upsert_named(v: &mut Vec<(String, Expr)>, key: String, val: Expr)
    ensures
        named_exprs_view(final(v)@) == upsert(named_exprs_view(old(v)@), key@, val@),
{
    let ghost sv = named_exprs_view(old(v)@);
    proof {
        lemma_named_exprs_view_props(old(v)@);
    }
    let mut m: usize = 0;
    while m < v.len()
        invariant
            m <= v@.len(),
            v@ == old(v)@,
            forall|t: int| 0 <= t < m ==> old(v)@[t].0@ != key@,
        decreases v@.len() - m,
    {
        let hit = v[m].0 == key;
        if hit {
            proof {
                lemma_upsert_found(sv, key@, val@, m as int);
            }
            v[m] = (key, val);
            proof {
                lemma_named_exprs_view_props(old(v)@);
                lemma_named_exprs_view_props(v@);
                assert(named_exprs_view(v@) =~= sv.update(m as int, (key@, val@)));
            }
            return;
        }
        m += 1;
    }
    proof {
        lemma_upsert_missing(sv, key@, val@);
        lemma_named_exprs_view_push(old(v)@, (key, val));
    }
    v.push((key, val));
}

/// Inserts a binding into a `let` under construction: a duplicate identifier
/// overwrites the earlier value in place, a new one is appended.
#[verifier::rlimit(30)]
fn upsert_let(v: &mut Vec<(IdentExpr, Expr)>, ident: IdentExpr, val: Expr)
    ensures
        let_bindings_view(final(v)@) == upsert(let_bindings_view(old(v)@), ident.name@, val@),
{
    let ghost sv = let_bindings_view(old(v)@);
    proof {
        lemma_let_bindings_view_props(old(v)@);
    }
    let mut m: usize = 0;
    while m < v.len()
        invariant
            m <= v@.len(),
            v@ == old(v)@,
            forall|t: int| 0 <= t < m ==> old(v)@[t].0.name@ != ident.name@,
        decreases v@.len() - m,
    {
        let hit = v[m].0.name == ident.name;
        if hit {
            proof {
                lemma_upsert_found(sv, ident.name@, val@, m as int);
            }
            v[m] = (ident, val);
            proof {
                lemma_let_bindings_view_props(old(v)@);
                lemma_let_bindings_view_props(v@);
                assert(let_bindings_view(v@) =~= sv.update(m as int, (ident.name@, val@)));
            }
            return;
        }
        m += 1;
    }
    proof {
        lemma_upsert_missing(sv, ident.name@, val@);
        lemma_let_bindings_view_push(old(v)@, (ident, val));
    }
    v.push((ident, val));
}

/// Whether a node may stand as the function of an application.
fn app_qualifies(e: &Expr) -> (b: bool)
    ensures
        b == spec_app_qualifies(e@),
{
    match e {
        Expr::Ident(_) => true,
        Expr::With(_) => true,
        Expr::Let(_) => true,
        Expr::Select(_) => true,
        Expr::Apply(_) => true,
        _ => false,
    }
}

/// Whether a node's selection chain may be extended by `.field`.
fn sel_qualifies(e: &Expr) -> (b: bool)
    ensures
        b == spec_sel_qualifies(e@),
{
    match e {
        Expr::Ident(_) => true,
        Expr::AttrSet(_) => true,
        _ => false,
    }
}

/// Whether a token can start a primary term.
fn term_start(t: &TokenType) -> (b: bool)
    ensures
        b == spec_term_start(t@),
{
    match t {
        TokenType::Ident(_) => true,
        TokenType::OpenParen => true,
        TokenType::OpenBrace => true,
        TokenType::OpenSquare => true,
        TokenType::Int(_) => true,
        TokenType::Flo(_) => true,
        TokenType::Path(_) => true,
        TokenType::NixPath(_) => true,
        _ => false,
    }
}

/// Relates one executable tail-parse outcome to the reference parse: the
/// tail may stop where it started, but never moves backward.
pub open spec fn tail_outcome_ok(
    tv: Seq<TokenV>,
    pos: int,
    sr: SpecParsed,
    r: Result<(Expr, usize), TokenStreamErrors>,
) -> bool {
    match r {
        Ok((e, j)) => sr == Ok::<(ExprV, int), ParseErrV>((e@, j as int)) && pos <= j <= tv.len(),
        Err(er) => sr == Err::<(ExprV, int), ParseErrV>(er@),
    }
}

/// Parses one expression, dispatching `let`, `with` and `if` and entering
/// the precedence climb otherwise.
#[verifier::rlimit(50)]
fn parse_expr(toks: &Vec<TokenType>, pos: usize) -> (r: Result<(Expr, usize), TokenStreamErrors>)
    requires
        pos <= toks@.len(),
    ensures
        parse_outcome_ok(
            toks_view(toks@),
            pos as int,
            spec_parse_expr(toks_view(toks@), pos as int),
            r,
        ),
    decreases toks@.len() - pos, 40int,
{
    let ghost tv = toks_view(toks@);
    if pos >= toks.len() {
        return Err(TokenStreamErrors::UnexpectedEof);
    }
    proof {
        assert(tv[pos as int] == toks@[pos as int]@);
    }
    match &toks[pos] {
        TokenType::Let => parse_let(toks, pos),
        TokenType::With => parse_with(toks, pos),
        TokenType::If => parse_if(toks, pos),
        _ => parse_arrow(toks, pos),
    }
}

/// The prefix logical-not tier.
#[verifier::rlimit(50)]
fn parse_not(toks: &Vec<TokenType>, pos: usize) -> (r: Result<(Expr, usize), TokenStreamErrors>)
    requires
        pos <= toks@.len(),
    ensures
        parse_outcome_ok(
            toks_view(toks@),
            pos as int,
            spec_parse_not(toks_view(toks@), pos as int),
            r,
        ),
    decreases toks@.len() - pos, 18int,
{
    let ghost tv = toks_view(toks@);
    if pos < toks.len() {
        proof {
            assert(tv[pos as int] == toks@[pos as int]@);
        }
        let neg = match &toks[pos] {
            TokenType::LogicalNegation => true,
            _ => false,
        };
        if neg {
            return match parse_additive(toks, pos + 1) {
                Ok((right, j)) => Ok((Expr::new_logical_negation(right), j)),
                Err(e) => Err(e),
            };
        }
    }
    parse_additive(toks, pos)
}

/// The prefix arithmetic negation tier.
#[verifier::rlimit(50)]
fn parse_arithm_negation(toks: &Vec<TokenType>, pos: usize) -> (r: Result<
    (Expr, usize),
    TokenStreamErrors,
>)
    requires
        pos <= toks@.len(),
    ensures
        parse_outcome_ok(
            toks_view(toks@),
            pos as int,
            spec_parse_arithm_negation(toks_view(toks@), pos as int),
            r,
        ),
    decreases toks@.len() - pos, 10int,
{
    let ghost tv = toks_view(toks@);
    if pos < toks.len() {
        proof {
            assert(tv[pos as int] == toks@[pos as int]@);
        }
        let neg = match &toks[pos] {
            TokenType::ArithmNegation => true,
            _ => false,
        };
        if neg {
            return match parse_has(toks, pos + 1) {
                Ok((right, j)) => Ok((Expr::new_arithmetic_negation(right), j)),
                Err(e) => Err(e),
            };
        }
    }
    parse_has(toks, pos)
}

/// Function application by juxtaposition, entered after a qualifying node.
#[verifier::rlimit(50)]
fn parse_application(toks: &Vec<TokenType>, pos: usize) -> (r: Result<
    (Expr, usize),
    TokenStreamErrors,
>)
    requires
        pos <= toks@.len(),
    ensures
        parse_outcome_ok(
            toks_view(toks@),
            pos as int,
            spec_parse_application(toks_view(toks@), pos as int),
            r,
        ),
    decreases toks@.len() - pos, 6int,
{
    if pos >= toks.len() {
        return Err(TokenStreamErrors::UnexpectedEof);
    }
    match parse_selection(toks, pos) {
        Ok((e, j)) => {
            if app_qualifies(&e) {
                parse_application_tail(toks, j, e)
            } else {
                Ok((e, j))
            }
        },
        Err(e) => Err(e),
    }
}

/// Folds further selection-level operands into a left-nested application,
/// then checks what follows a finished application.
#[verifier::rlimit(100)]
#[verifier::spinoff_prover]
fn parse_application_tail(toks: &Vec<TokenType>, pos: usize, func: Expr) -> (r: Result<
    (Expr, usize),
    TokenStreamErrors,
>)
    requires
        pos <= toks@.len(),
    ensures
        tail_outcome_ok(
            toks_view(toks@),
            pos as int,
            spec_parse_application_tail(toks_view(toks@), pos as int, func@),
            r,
        ),
    decreases toks@.len() - pos, 5int,
{
    let ghost tv = toks_view(toks@);
    let n = toks.len();
    proof {
        if pos < n {
            assert(tv[pos as int] == toks@[pos as int]@);
        }
    }
    if pos < n && term_start(&toks[pos]) {
        match parse_selection(toks, pos) {
            Ok((arg, k)) => parse_application_tail(toks, k, Expr::new_apply(func, arg)),
            Err(e) => Err(e),
        }
    } else {
        match &func {
            Expr::Apply(_) => {
                if pos >= n {
                    return Ok((func, pos));
                }
                match &toks[pos] {
                    TokenType::Semicolon => Ok((func, pos)),
                    TokenType::Has => Ok((func, pos)),
                    _ => Err(
                        TokenStreamErrors::UnexpectedToken(
                            UnexpectedTokenError::new(&TokenType::Semicolon, &toks[pos]),
                        ),
                    ),
                }
            },
            _ => Ok((func, pos)),
        }
    }
}

/// Attribute selection, entered after an identifier or set literal.
#[verifier::rlimit(50)]
fn parse_selection(toks: &Vec<TokenType>, pos: usize) -> (r: Result<
    (Expr, usize),
    TokenStreamErrors,
>)
    requires
        pos <= toks@.len(),
    ensures
        parse_outcome_ok(
            toks_view(toks@),
            pos as int,
            spec_parse_selection(toks_view(toks@), pos as int),
            r,
        ),
    decreases toks@.len() - pos, 4int,
{
    if pos >= toks.len() {
        return Err(TokenStreamErrors::UnexpectedEof);
    }
    match parse_term(toks, pos) {
        Ok((obj, j)) => {
            if sel_qualifies(&obj) {
                parse_selection_tail(toks, j, obj)
            } else {
                Ok((obj, j))
            }
        },
        Err(e) => Err(e),
    }
}

/// Folds `.field` accesses into a left-nested selection chain.
#[verifier::rlimit(100)]
#[verifier::spinoff_prover]
fn parse_selection_tail(toks: &Vec<TokenType>, pos: usize, obj: Expr) -> (r: Result<
    (Expr, usize),
    TokenStreamErrors,
>)
    requires
        pos <= toks@.len(),
    ensures
        tail_outcome_ok(
            toks_view(toks@),
            pos as int,
            spec_parse_selection_tail(toks_view(toks@), pos as int, obj@),
            r,
        ),
    decreases toks@.len() - pos, 0int,
{
    let ghost tv = toks_view(toks@);
    let n = toks.len();
    if pos >= n {
        return Ok((obj, pos));
    }
    proof {
        assert(tv[pos as int] == toks@[pos as int]@);
    }
    match &toks[pos] {
        TokenType::Access => {
            if pos + 1 < n {
                proof {
                    assert(tv[pos + 1 as int] == toks@[pos + 1 as int]@);
                }
                match &toks[pos + 1] {
                    TokenType::Ident(field_name) => {
                        let field = IdentExpr::new(field_name.as_str());
                        parse_selection_tail(toks, pos + 2, Expr::new_select(obj, field))
                    },
                    _ => Err(
                        TokenStreamErrors::UnexpectedToken(
                            UnexpectedTokenError::new(
                                &TokenType::Ident(String::new()),
                                &toks[pos + 1],
                            ),
                        ),
                    ),
                }
            } else {
                Err(TokenStreamErrors::UnexpectedEof)
            }
        },
        _ => Ok((obj, pos)),
    }
}

/// One precedence tier: parse the next-higher tier, then fold its operators
/// left.
#[verifier::rlimit(50)]
fn parse_arrow(toks: &Vec<TokenType>, pos: usize) -> (r: Result<(Expr, usize), TokenStreamErrors>)
    requires
        pos <= toks@.len(),
    ensures
        parse_outcome_ok(
            toks_view(toks@),
            pos as int,
            spec_parse_arrow(toks_view(toks@), pos as int),
            r,
        ),
    decreases toks@.len() - pos, 30int,
{
    if pos >= toks.len() {
        return Err(TokenStreamErrors::UnexpectedEof);
    }
    match parse_or(toks, pos) {
        Ok((left, j)) => parse_arrow_tail(toks, j, left),
        Err(e) => Err(e),
    }
}



/// Whether a token is the implication operator.
fn is_log_impl(t: &TokenType) -> (b: bool)
    ensures
        b == (t@ == TokenV::LogImpl),
{
    match t {
        TokenType::LogImpl => true,
        _ => false,
    }
}

/// Whether a token is the logical-or operator.
fn is_or_op(t: &TokenType) -> (b: bool)
    ensures
        b == (t@ == TokenV::Or),
{
    match t {
        TokenType::Or => true,
        _ => false,
    }
}

/// The (in)equality operator a token carries, if any.
fn logcmp_op(t: &TokenType) -> (r: Option<LogicalComparison>)
    ensures
        r == (match t@ {
            TokenV::LogicalComparison(c) => Some(c),
            _ => None::<LogicalComparison>,
        }),
{
    match t {
        TokenType::LogicalComparison(c) => Some(*c),
        _ => None,
    }
}

/// The relational comparison operator a token carries, if any.
fn arithcmp_op(t: &TokenType) -> (r: Option<ArithmComparison>)
    ensures
        r == (match t@ {
            TokenV::ArithmComparison(c) => Some(c),
            _ => None::<ArithmComparison>,
        }),
{
    match t {
        TokenType::ArithmComparison(c) => Some(*c),
        _ => None,
    }
}

/// One fold step of the implication tier: with `->` at `i` and the right
/// operand parsed up to `k`, folding continues from `k` with the new left
/// operand.
proof fn lemma_arrow_tail_step(ts: Seq<TokenV>, i: int, left: ExprV, right: ExprV, k: int)
    requires
        0 <= i < ts.len(),
        ts[i] == TokenV::LogImpl,
        spec_parse_or(ts, i + 1) == Ok::<(ExprV, int), ParseErrV>((right, k)),
        i + 2 <= k <= ts.len(),
    ensures
        spec_parse_arrow_tail(ts, i, left) == spec_parse_arrow_tail(
            ts,
            k,
            ExprV::Binary { typ: BinaryExprType::Arrow(), left: Box::new(left), right: Box::new(right) },
        ),
{
}

/// A failed right operand ends the implication tier with that error.
proof fn lemma_arrow_tail_err(ts: Seq<TokenV>, i: int, left: ExprV, e: ParseErrV)
    requires
        0 <= i < ts.len(),
        ts[i] == TokenV::LogImpl,
        spec_parse_or(ts, i + 1) == Err::<(ExprV, int), ParseErrV>(e),
    ensures
        spec_parse_arrow_tail(ts, i, left) == Err::<(ExprV, int), ParseErrV>(e),
{
}

#[verifier::rlimit(100)]
#[verifier::spinoff_prover]
fn parse_arrow_tail(toks: &Vec<TokenType>, pos: usize, left: Expr) -> (r: Result<
    (Expr, usize),
    TokenStreamErrors,
>)
    requires
        pos <= toks@.len(),
    ensures
        tail_outcome_ok(
            toks_view(toks@),
            pos as int,
            spec_parse_arrow_tail(toks_view(toks@), pos as int, left@),
            r,
        ),
    decreases toks@.len() - pos, 0int,
{
    let ghost tv = toks_view(toks@);
    let n = toks.len();
    if pos >= n {
        return Ok((left, pos));
    }
    proof {
        assert(tv[pos as int] == toks@[pos as int]@);
    }
    if is_log_impl(&toks[pos]) {
        match parse_or(toks, pos + 1) {
            Ok((right, k)) => {
                proof {
                    lemma_arrow_tail_step(tv, pos as int, left@, right@, k as int);
                }
                parse_arrow_tail(toks, k, Expr::new_logical_disjunction(left, right))
            },
            Err(e) => {
                proof {
                    lemma_arrow_tail_err(tv, pos as int, left@, e@);
                }
                Err(e)
            },
        }
    } else {
        Ok((left, pos))
    }
}

/// One precedence tier: parse the next-higher tier, then fold its operators
/// left.
#[verifier::rlimit(50)]
fn parse_or(toks: &Vec<TokenType>, pos: usize) -> (r: Result<(Expr, usize), TokenStreamErrors>)
    requires
        pos <= toks@.len(),
    ensures
        parse_outcome_ok(
            toks_view(toks@),
            pos as int,
            spec_parse_or(toks_view(toks@), pos as int),
            r,
        ),
    decreases toks@.len() - pos, 28int,
{
    if pos >= toks.len() {
        return Err(TokenStreamErrors::UnexpectedEof);
    }
    match parse_and(toks, pos) {
        Ok((left, j)) => parse_or_tail(toks, j, left),
        Err(e) => Err(e),
    }
}

#[verifier::rlimit(100)]
#[verifier::spinoff_prover]
fn parse_or_tail(toks: &Vec<TokenType>, pos: usize, left: Expr) -> (r: Result<
    (Expr, usize),
    TokenStreamErrors,
>)
    requires
        pos <= toks@.len(),
    ensures
        tail_outcome_ok(
            toks_view(toks@),
            pos as int,
            spec_parse_or_tail(toks_view(toks@), pos as int, left@),
            r,
        ),
    decreases toks@.len() - pos, 0int,
{
    let ghost tv = toks_view(toks@);
    let n = toks.len();
    if pos >= n {
        return Ok((left, pos));
    }
    proof {
        assert(tv[pos as int] == toks@[pos as int]@);
    }
    if is_or_op(&toks[pos]) {
        match parse_and(toks, pos + 1) {
            Ok((right, k)) => parse_or_tail(toks, k, Expr::new_or(left, right)),
            Err(e) => Err(e),
        }
    } else {
        Ok((left, pos))
    }
}

/// One precedence tier: parse the next-higher tier, then fold its operators
/// left.
#[verifier::rlimit(50)]
fn parse_and(toks: &Vec<TokenType>, pos: usize) -> (r: Result<(Expr, usize), TokenStreamErrors>)
    requires
        pos <= toks@.len(),
    ensures
        parse_outcome_ok(
            toks_view(toks@),
            pos as int,
            spec_parse_and(toks_view(toks@), pos as int),
            r,
        ),
    decreases toks@.len() - pos, 26int,
{
    if pos >= toks.len() {
        return Err(TokenStreamErrors::UnexpectedEof);
    }
    match parse_logical_comparison(toks, pos) {
        Ok((left, j)) => parse_and_tail(toks, j, left),
        Err(e) => Err(e),
    }
}

#[verifier::rlimit(100)]
#[verifier::spinoff_prover]
fn parse_and_tail(toks: &Vec<TokenType>, pos: usize, left: Expr) -> (r: Result<
    (Expr, usize),
    TokenStreamErrors,
>)
    requires
        pos <= toks@.len(),
    ensures
        tail_outcome_ok(
            toks_view(toks@),
            pos as int,
            spec_parse_and_tail(toks_view(toks@), pos as int, left@),
            r,
        ),
    decreases toks@.len() - pos, 0int,
{
    let ghost tv = toks_view(toks@);
    let n = toks.len();
    if pos >= n {
        return Ok((left, pos));
    }
    proof {
        assert(tv[pos as int] == toks@[pos as int]@);
    }
    match &toks[pos] {
        TokenType::And => {
            match parse_logical_comparison(toks, pos + 1) {
                Ok((right, k)) => parse_and_tail(toks, k, Expr::new_and(left, right)),
                Err(e) => Err(e),
            }
        },
        _ => Ok((left, pos)),
    }
}

/// One precedence tier: parse the next-higher tier, then fold its operators
/// left.
#[verifier::rlimit(50)]
fn parse_logical_comparison(toks: &Vec<TokenType>, pos: usize) -> (r: Result<(Expr, usize), TokenStreamErrors>)
    requires
        pos <= toks@.len(),
    ensures
        parse_outcome_ok(
            toks_view(toks@),
            pos as int,
            spec_parse_logical_comparison(toks_view(toks@), pos as int),
            r,
        ),
    decreases toks@.len() - pos, 24int,
{
    if pos >= toks.len() {
        return Err(TokenStreamErrors::UnexpectedEof);
    }
    match parse_arithm_comparison(toks, pos) {
        Ok((left, j)) => parse_logical_comparison_tail(toks, j, left),
        Err(e) => Err(e),
    }
}

#[verifier::rlimit(100)]
#[verifier::spinoff_prover]
fn parse_logical_comparison_tail(toks: &Vec<TokenType>, pos: usize, left: Expr) -> (r: Result<
    (Expr, usize),
    TokenStreamErrors,
>)
    requires
        pos <= toks@.len(),
    ensures
        tail_outcome_ok(
            toks_view(toks@),
            pos as int,
            spec_parse_logical_comparison_tail(toks_view(toks@), pos as int, left@),
            r,
        ),
    decreases toks@.len() - pos, 0int,
{
    let ghost tv = toks_view(toks@);
    let n = toks.len();
    if pos >= n {
        return Ok((left, pos));
    }
    proof {
        assert(tv[pos as int] == toks@[pos as int]@);
    }
    if let Some(op) = logcmp_op(&toks[pos]) {
        match parse_arithm_comparison(toks, pos + 1) {
            Ok((right, k)) => {
                let next = match op {
                    LogicalComparison::CompareEquals => Expr::new_compare_equals(left, right),
                    LogicalComparison::CompareNotEquals => Expr::new_compare_not_equals(
                        left,
                        right,
                    ),
                };
                parse_logical_comparison_tail(toks, k, next)
            },
            Err(e) => Err(e),
        }
    } else {
        Ok((left, pos))
    }
}

/// One precedence tier: parse the next-higher tier, then fold its operators
/// left.
#[verifier::rlimit(50)]
fn parse_arithm_comparison(toks: &Vec<TokenType>, pos: usize) -> (r: Result<(Expr, usize), TokenStreamErrors>)
    requires
        pos <= toks@.len(),
    ensures
        parse_outcome_ok(
            toks_view(toks@),
            pos as int,
            spec_parse_arithm_comparison(toks_view(toks@), pos as int),
            r,
        ),
    decreases toks@.len() - pos, 22int,
{
    if pos >= toks.len() {
        return Err(TokenStreamErrors::UnexpectedEof);
    }
    match parse_update(toks, pos) {
        Ok((left, j)) => parse_arithm_comparison_tail(toks, j, left),
        Err(e) => Err(e),
    }
}

#[verifier::rlimit(100)]
#[verifier::spinoff_prover]
fn parse_arithm_comparison_tail(toks: &Vec<TokenType>, pos: usize, left: Expr) -> (r: Result<
    (Expr, usize),
    TokenStreamErrors,
>)
    requires
        pos <= toks@.len(),
    ensures
        tail_outcome_ok(
            toks_view(toks@),
            pos as int,
            spec_parse_arithm_comparison_tail(toks_view(toks@), pos as int, left@),
            r,
        ),
    decreases toks@.len() - pos, 0int,
{
    let ghost tv = toks_view(toks@);
    let n = toks.len();
    if pos >= n {
        return Ok((left, pos));
    }
    proof {
        assert(tv[pos as int] == toks@[pos as int]@);
    }
    if let Some(op) = arithcmp_op(&toks[pos]) {
        match parse_update(toks, pos + 1) {
            Ok((right, k)) => {
                let next = match op {
                    ArithmComparison::More => Expr::new_compare_more(left, right),
                    ArithmComparison::Less => Expr::new_compare_less(left, right),
                    ArithmComparison::MoreOrEquals => Expr::new_compare_more_or_equals(
                        left,
                        right,
                    ),
                    ArithmComparison::LessOrEquals => Expr::new_compare_less_or_equals(
                        left,
                        right,
                    ),
                };
                parse_arithm_comparison_tail(toks, k, next)
            },
            Err(e) => Err(e),
        }
    } else {
        Ok((left, pos))
    }
}

/// One precedence tier: parse the next-higher tier, then fold its operators
/// left.
#[verifier::rlimit(50)]
fn parse_update(toks: &Vec<TokenType>, pos: usize) -> (r: Result<(Expr, usize), TokenStreamErrors>)
    requires
        pos <= toks@.len(),
    ensures
        parse_outcome_ok(
            toks_view(toks@),
            pos as int,
            spec_parse_update(toks_view(toks@), pos as int),
            r,
        ),
    decreases toks@.len() - pos, 20int,
{
    if pos >= toks.len() {
        return Err(TokenStreamErrors::UnexpectedEof);
    }
    match parse_not(toks, pos) {
        Ok((left, j)) => parse_update_tail(toks, j, left),
        Err(e) => Err(e),
    }
}

#[verifier::rlimit(100)]
#[verifier::spinoff_prover]
fn parse_update_tail(toks: &Vec<TokenType>, pos: usize, left: Expr) -> (r: Result<
    (Expr, usize),
    TokenStreamErrors,
>)
    requires
        pos <= toks@.len(),
    ensures
        tail_outcome_ok(
            toks_view(toks@),
            pos as int,
            spec_parse_update_tail(toks_view(toks@), pos as int, left@),
            r,
        ),
    decreases toks@.len() - pos, 0int,
{
    let ghost tv = toks_view(toks@);
    let n = toks.len();
    if pos >= n {
        return Ok((left, pos));
    }
    proof {
        assert(tv[pos as int] == toks@[pos as int]@);
    }
    match &toks[pos] {
        TokenType::Update => {
            match parse_not(toks, pos + 1) {
                Ok((right, k)) => parse_update_tail(toks, k, Expr::new_update(left, right)),
                Err(e) => Err(e),
            }
        },
        _ => Ok((left, pos)),
    }
}

/// One precedence tier: parse the next-higher tier, then fold its operators
/// left.
#[verifier::rlimit(50)]
fn parse_additive(toks: &Vec<TokenType>, pos: usize) -> (r: Result<(Expr, usize), TokenStreamErrors>)
    requires
        pos <= toks@.len(),
    ensures
        parse_outcome_ok(
            toks_view(toks@),
            pos as int,
            spec_parse_additive(toks_view(toks@), pos as int),
            r,
        ),
    decreases toks@.len() - pos, 16int,
{
    if pos >= toks.len() {
        return Err(TokenStreamErrors::UnexpectedEof);
    }
    match parse_multiplicative(toks, pos) {
        Ok((left, j)) => parse_additive_tail(toks, j, left),
        Err(e) => Err(e),
    }
}

#[verifier::rlimit(100)]
#[verifier::spinoff_prover]
fn parse_additive_tail(toks: &Vec<TokenType>, pos: usize, left: Expr) -> (r: Result<
    (Expr, usize),
    TokenStreamErrors,
>)
    requires
        pos <= toks@.len(),
    ensures
        tail_outcome_ok(
            toks_view(toks@),
            pos as int,
            spec_parse_additive_tail(toks_view(toks@), pos as int, left@),
            r,
        ),
    decreases toks@.len() - pos, 0int,
{
    let ghost tv = toks_view(toks@);
    let n = toks.len();
    if pos >= n {
        return Ok((left, pos));
    }
    proof {
        assert(tv[pos as int] == toks@[pos as int]@);
    }
    match &toks[pos] {
        TokenType::AdditiveOperator(AdditiveOperator::Add) => {
            match parse_multiplicative(toks, pos + 1) {
                Ok((right, k)) => parse_additive_tail(toks, k, Expr::new_add(left, right)),
                Err(e) => Err(e),
            }
        },
        TokenType::AdditiveOperator(AdditiveOperator::Sub) => {
            match parse_multiplicative(toks, pos + 1) {
                Ok((right, k)) => parse_additive_tail(toks, k, Expr::new_sub(left, right)),
                Err(e) => Err(e),
            }
        },
        _ => Ok((left, pos)),
    }
}

/// One precedence tier: parse the next-higher tier, then fold its operators
/// left.
#[verifier::rlimit(50)]
fn parse_multiplicative(toks: &Vec<TokenType>, pos: usize) -> (r: Result<(Expr, usize), TokenStreamErrors>)
    requires
        pos <= toks@.len(),
    ensures
        parse_outcome_ok(
            toks_view(toks@),
            pos as int,
            spec_parse_multiplicative(toks_view(toks@), pos as int),
            r,
        ),
    decreases toks@.len() - pos, 14int,
{
    if pos >= toks.len() {
        return Err(TokenStreamErrors::UnexpectedEof);
    }
    match parse_concat(toks, pos) {
        Ok((left, j)) => parse_multiplicative_tail(toks, j, left),
        Err(e) => Err(e),
    }
}

#[verifier::rlimit(100)]
#[verifier::spinoff_prover]
fn parse_multiplicative_tail(toks: &Vec<TokenType>, pos: usize, left: Expr) -> (r: Result<
    (Expr, usize),
    TokenStreamErrors,
>)
    requires
        pos <= toks@.len(),
    ensures
        tail_outcome_ok(
            toks_view(toks@),
            pos as int,
            spec_parse_multiplicative_tail(toks_view(toks@), pos as int, left@),
            r,
        ),
    decreases toks@.len() - pos, 0int,
{
    let ghost tv = toks_view(toks@);
    let n = toks.len();
    if pos >= n {
        return Ok((left, pos));
    }
    proof {
        assert(tv[pos as int] == toks@[pos as int]@);
    }
    match &toks[pos] {
        TokenType::MultiplicativeOperator(MultiplicativeOperator::Mult) => {
            match parse_concat(toks, pos + 1) {
                Ok((right, k)) => parse_multiplicative_tail(toks, k, Expr::new_mult(left, right)),
                Err(e) => Err(e),
            }
        },
        TokenType::MultiplicativeOperator(MultiplicativeOperator::Div) => {
            match parse_concat(toks, pos + 1) {
                Ok((right, k)) => parse_multiplicative_tail(toks, k, Expr::new_div(left, right)),
                Err(e) => Err(e),
            }
        },
        _ => Ok((left, pos)),
    }
}

/// One precedence tier: parse the next-higher tier, then fold its operators
/// left.
#[verifier::rlimit(50)]
fn parse_concat(toks: &Vec<TokenType>, pos: usize) -> (r: Result<(Expr, usize), TokenStreamErrors>)
    requires
        pos <= toks@.len(),
    ensures
        parse_outcome_ok(
            toks_view(toks@),
            pos as int,
            spec_parse_concat(toks_view(toks@), pos as int),
            r,
        ),
    decreases toks@.len() - pos, 12int,
{
    if pos >= toks.len() {
        return Err(TokenStreamErrors::UnexpectedEof);
    }
    match parse_arithm_negation(toks, pos) {
        Ok((left, j)) => parse_concat_tail(toks, j, left),
        Err(e) => Err(e),
    }
}

#[verifier::rlimit(100)]
#[verifier::spinoff_prover]
fn parse_concat_tail(toks: &Vec<TokenType>, pos: usize, left: Expr) -> (r: Result<
    (Expr, usize),
    TokenStreamErrors,
>)
    requires
        pos <= toks@.len(),
    ensures
        tail_outcome_ok(
            toks_view(toks@),
            pos as int,
            spec_parse_concat_tail(toks_view(toks@), pos as int, left@),
            r,
        ),
    decreases toks@.len() - pos, 0int,
{
    let ghost tv = toks_view(toks@);
    let n = toks.len();
    if pos >= n {
        return Ok((left, pos));
    }
    proof {
        assert(tv[pos as int] == toks@[pos as int]@);
    }
    match &toks[pos] {
        TokenType::Concat => {
            match parse_arithm_negation(toks, pos + 1) {
                Ok((right, k)) => parse_concat_tail(toks, k, Expr::new_concat(left, right)),
                Err(e) => Err(e),
            }
        },
        _ => Ok((left, pos)),
    }
}

/// One precedence tier: parse the next-higher tier, then fold its operators
/// left.
#[verifier::rlimit(50)]
fn parse_has(toks: &Vec<TokenType>, pos: usize) -> (r: Result<(Expr, usize), TokenStreamErrors>)
    requires
        pos <= toks@.len(),
    ensures
        parse_outcome_ok(
            toks_view(toks@),
            pos as int,
            spec_parse_has(toks_view(toks@), pos as int),
            r,
        ),
    decreases toks@.len() - pos, 8int,
{
    if pos >= toks.len() {
        return Err(TokenStreamErrors::UnexpectedEof);
    }
    match parse_application(toks, pos) {
        Ok((left, j)) => parse_has_tail(toks, j, left),
        Err(e) => Err(e),
    }
}

#[verifier::rlimit(100)]
#[verifier::spinoff_prover]
fn parse_has_tail(toks: &Vec<TokenType>, pos: usize, left: Expr) -> (r: Result<
    (Expr, usize),
    TokenStreamErrors,
>)
    requires
        pos <= toks@.len(),
    ensures
        tail_outcome_ok(
            toks_view(toks@),
            pos as int,
            spec_parse_has_tail(toks_view(toks@), pos as int, left@),
            r,
        ),
    decreases toks@.len() - pos, 0int,
{
    let ghost tv = toks_view(toks@);
    let n = toks.len();
    if pos >= n {
        return Ok((left, pos));
    }
    proof {
        assert(tv[pos as int] == toks@[pos as int]@);
    }
    match &toks[pos] {
        TokenType::Has => {
            match parse_application(toks, pos + 1) {
                Ok((right, k)) => parse_has_tail(toks, k, Expr::new_has(left, right)),
                Err(e) => Err(e),
            }
        },
        _ => Ok((left, pos)),
    }
}

/// A primary term.
#[verifier::rlimit(50)]
fn parse_term(toks: &Vec<TokenType>, pos: usize) -> (r: Result<(Expr, usize), TokenStreamErrors>)
    requires
        pos <= toks@.len(),
    ensures
        parse_outcome_ok(
            toks_view(toks@),
            pos as int,
            spec_parse_term(toks_view(toks@), pos as int),
            r,
        ),
    decreases toks@.len() - pos, 2int,
{
    let ghost tv = toks_view(toks@);
    let n = toks.len();
    if pos >= n {
        return Err(TokenStreamErrors::UnexpectedEof);
    }
    proof {
        assert(tv[pos as int] == toks@[pos as int]@);
    }
    match &toks[pos] {
        TokenType::Ident(val) => Ok((Expr::new_ident(val.as_str()), pos + 1)),
        TokenType::StrLiteral(val) => Ok((Expr::new_str(val.as_str()), pos + 1)),
        TokenType::Path(val) => Ok((Expr::new_path(val.as_str()), pos + 1)),
        TokenType::NixPath(val) => Ok((Expr::new_nix_path(val.as_str()), pos + 1)),
        TokenType::Int(val) => Ok((Expr::new_int(*val), pos + 1)),
        TokenType::Flo(val) => Ok((Expr::new_flo(val.as_str()), pos + 1)),
        TokenType::Bool(val) => Ok((Expr::new_bool(*val), pos + 1)),
        TokenType::Null => Ok((Expr::new_null(), pos + 1)),
        TokenType::OpenSquare => parse_list(toks, pos + 1),
        TokenType::OpenBrace => parse_set(toks, pos + 1),
        TokenType::OpenParen => {
            match parse_expr(toks, pos + 1) {
                Ok((grouped_expr, j)) => {
                    if j < n {
                        proof {
                            assert(tv[j as int] == toks@[j as int]@);
                        }
                        match &toks[j] {
                            TokenType::CloseParen => Ok((grouped_expr, j + 1)),
                            _ => Err(
                                TokenStreamErrors::UnexpectedToken(
                                    UnexpectedTokenError::new(&TokenType::CloseParen, &toks[j]),
                                ),
                            ),
                        }
                    } else {
                        Err(TokenStreamErrors::UnexpectedEof)
                    }
                },
                Err(e) => Err(e),
            }
        },
        TokenType::Let => parse_let(toks, pos),
        TokenType::With => parse_with(toks, pos),
        TokenType::If => parse_if(toks, pos),
        _ => Err(
            TokenStreamErrors::UnexpectedToken(
                UnexpectedTokenError::new(&TokenType::Ident(String::new()), &toks[pos]),
            ),
        ),
    }
}

/// One `ident = expr ;` binding.
#[verifier::rlimit(50)]
fn parse_binding(toks: &Vec<TokenType>, pos: usize) -> (r: Result<
    (BindingExpr, usize),
    TokenStreamErrors,
>)
    requires
        pos <= toks@.len(),
    ensures
        match r {
            Ok((b, j)) => spec_parse_binding(toks_view(toks@), pos as int) == Ok::<
                ((Seq<char>, ExprV), int),
                ParseErrV,
            >(((b.ident.name@, b.expr@), j as int)) && pos < j <= toks@.len(),
            Err(er) => spec_parse_binding(toks_view(toks@), pos as int) == Err::<
                ((Seq<char>, ExprV), int),
                ParseErrV,
            >(er@),
        },
    decreases toks@.len() - pos, 0int,
{
    let ghost tv = toks_view(toks@);
    let n = toks.len();
    if pos >= n {
        return Err(TokenStreamErrors::UnexpectedEof);
    }
    proof {
        assert(tv[pos as int] == toks@[pos as int]@);
        if pos + 1 < n {
            assert(tv[pos + 1 as int] == toks@[pos + 1 as int]@);
        }
    }
    match &toks[pos] {
        TokenType::Ident(ident_name) => {
            let ident = IdentExpr::new(ident_name.as_str());
            if pos + 1 < n {
                match &toks[pos + 1] {
                    TokenType::Assign => {
                        match parse_expr(toks, pos + 2) {
                            Ok((binding_expr, j)) => {
                                if j < n {
                                    proof {
                                        assert(tv[j as int] == toks@[j as int]@);
                                    }
                                    match &toks[j] {
                                        TokenType::Semicolon => Ok(
                                            (BindingExpr::new(ident, binding_expr), j + 1),
                                        ),
                                        _ => Err(
                                            TokenStreamErrors::UnexpectedToken(
                                                UnexpectedTokenError::new(
                                                    &TokenType::Semicolon,
                                                    &toks[j],
                                                ),
                                            ),
                                        ),
                                    }
                                } else {
                                    Err(TokenStreamErrors::UnexpectedEof)
                                }
                            },
                            Err(e) => Err(e),
                        }
                    },
                    _ => Err(
                        TokenStreamErrors::UnexpectedToken(
                            UnexpectedTokenError::new(&TokenType::Assign, &toks[pos + 1]),
                        ),
                    ),
                }
            } else {
                Err(TokenStreamErrors::UnexpectedEof)
            }
        },
        _ => Err(
            TokenStreamErrors::UnexpectedToken(
                UnexpectedTokenError::new(&TokenType::Ident(String::new()), &toks[pos]),
            ),
        ),
    }
}

/// A `let`: bindings collected until `in`, duplicate identifiers overwrite.
#[verifier::rlimit(50)]
fn parse_let(toks: &Vec<TokenType>, pos: usize) -> (r: Result<(Expr, usize), TokenStreamErrors>)
    requires
        pos <= toks@.len(),
    ensures
        parse_outcome_ok(
            toks_view(toks@),
            pos as int,
            spec_parse_let(toks_view(toks@), pos as int),
            r,
        ),
    decreases toks@.len() - pos, 1int,
{
    if pos >= toks.len() {
        return Err(TokenStreamErrors::UnexpectedEof);
    }
    let bindings: Vec<(IdentExpr, Expr)> = Vec::new();
    proof {
        assert(let_bindings_view(bindings@) =~= Seq::<(Seq<char>, ExprV)>::empty());
    }
    parse_let_tail(toks, pos + 1, bindings)
}

/// The binding loop of a `let`, carrying the bindings collected so far.
#[verifier::rlimit(100)]
#[verifier::spinoff_prover]
fn parse_let_tail(toks: &Vec<TokenType>, pos: usize, bindings: Vec<(IdentExpr, Expr)>) -> (r:
    Result<(Expr, usize), TokenStreamErrors>)
    requires
        pos <= toks@.len(),
    ensures
        match r {
            Ok((e, j)) => spec_parse_let_tail(
                toks_view(toks@),
                pos as int,
                let_bindings_view(bindings@),
            ) == Ok::<(ExprV, int), ParseErrV>((e@, j as int)) && pos < j <= toks@.len(),
            Err(er) => spec_parse_let_tail(
                toks_view(toks@),
                pos as int,
                let_bindings_view(bindings@),
            ) == Err::<(ExprV, int), ParseErrV>(er@),
        },
    decreases toks@.len() - pos, 1int,
{
    let ghost tv = toks_view(toks@);
    let n = toks.len();
    if pos >= n {
        return Err(TokenStreamErrors::UnexpectedEof);
    }
    proof {
        assert(tv[pos as int] == toks@[pos as int]@);
    }
    match &toks[pos] {
        TokenType::In => {
            match parse_expr(toks, pos + 1) {
                Ok((body, j)) => Ok((Expr::new_let(bindings, body), j)),
                Err(e) => Err(e),
            }
        },
        _ => {
            match parse_binding(toks, pos) {
                Ok((binding, k)) => {
                    let BindingExpr { ident, expr } = binding;
                    let mut bindings = bindings;
                    upsert_let(&mut bindings, ident, expr);
                    parse_let_tail(toks, k, bindings)
                },
                Err(e) => Err(e),
            }
        },
    }
}

/// A `with`: an identifier or set literal scope, `;`, then the body.
#[verifier::rlimit(50)]
fn parse_with(toks: &Vec<TokenType>, pos: usize) -> (r: Result<(Expr, usize), TokenStreamErrors>)
    requires
        pos <= toks@.len(),
    ensures
        parse_outcome_ok(
            toks_view(toks@),
            pos as int,
            spec_parse_with(toks_view(toks@), pos as int),
            r,
        ),
    decreases toks@.len() - pos, 1int,
{
    let ghost tv = toks_view(toks@);
    let n = toks.len();
    if pos >= n {
        return Err(TokenStreamErrors::UnexpectedEof);
    }
    if pos + 1 >= n {
        return Err(TokenStreamErrors::UnexpectedEof);
    }
    proof {
        assert(tv[pos + 1 as int] == toks@[pos + 1 as int]@);
        if pos + 2 < n {
            assert(tv[pos + 2 as int] == toks@[pos + 2 as int]@);
        }
    }
    match &toks[pos + 1] {
        TokenType::Ident(ident_name) => {
            let scope = Expr::new_ident(ident_name.as_str());
            if pos + 2 < n {
                match &toks[pos + 2] {
                    TokenType::Semicolon => {
                        match parse_expr(toks, pos + 3) {
                            Ok((body, j)) => Ok((Expr::new_with(scope, body), j)),
                            Err(e) => Err(e),
                        }
                    },
                    _ => Err(
                        TokenStreamErrors::UnexpectedToken(
                            UnexpectedTokenError::new(&TokenType::Semicolon, &toks[pos + 2]),
                        ),
                    ),
                }
            } else {
                Err(TokenStreamErrors::UnexpectedEof)
            }
        },
        TokenType::OpenBrace => {
            match parse_set(toks, pos + 2) {
                Ok((scope, j)) => {
                    if j < n {
                        proof {
                            assert(tv[j as int] == toks@[j as int]@);
                        }
                        match &toks[j] {
                            TokenType::Semicolon => {
                                match parse_expr(toks, j + 1) {
                                    Ok((body, k)) => Ok((Expr::new_with(scope, body), k)),
                                    Err(e) => Err(e),
                                }
                            },
                            _ => Err(
                                TokenStreamErrors::UnexpectedToken(
                                    UnexpectedTokenError::new(&TokenType::Semicolon, &toks[j]),
                                ),
                            ),
                        }
                    } else {
                        Err(TokenStreamErrors::UnexpectedEof)
                    }
                },
                Err(e) => Err(e),
            }
        },
        _ => Err(
            TokenStreamErrors::UnexpectedToken(
                UnexpectedTokenError::new(&TokenType::Ident(String::new()), &toks[pos + 1]),
            ),
        ),
    }
}

/// A set literal body, after the opening brace.
#[verifier::rlimit(50)]
fn parse_set(toks: &Vec<TokenType>, pos: usize) -> (r: Result<(Expr, usize), TokenStreamErrors>)
    requires
        pos <= toks@.len(),
    ensures
        parse_outcome_ok(
            toks_view(toks@),
            pos as int,
            spec_parse_set(toks_view(toks@), pos as int, Seq::empty()),
            r,
        ),
    decreases toks@.len() - pos, 2int,
{
    let elems: Vec<(String, Expr)> = Vec::new();
    proof {
        assert(named_exprs_view(elems@) =~= Seq::<(Seq<char>, ExprV)>::empty());
    }
    parse_set_tail(toks, pos, elems)
}

/// The binding loop of a set literal, carrying the bindings collected so
/// far.
#[verifier::rlimit(100)]
#[verifier::spinoff_prover]
fn parse_set_tail(toks: &Vec<TokenType>, pos: usize, elems: Vec<(String, Expr)>) -> (r: Result<
    (Expr, usize),
    TokenStreamErrors,
>)
    requires
        pos <= toks@.len(),
    ensures
        match r {
            Ok((e, j)) => spec_parse_set(
                toks_view(toks@),
                pos as int,
                named_exprs_view(elems@),
            ) == Ok::<(ExprV, int), ParseErrV>((e@, j as int)) && pos < j <= toks@.len(),
            Err(er) => spec_parse_set(
                toks_view(toks@),
                pos as int,
                named_exprs_view(elems@),
            ) == Err::<(ExprV, int), ParseErrV>(er@),
        },
    decreases toks@.len() - pos, 1int,
{
    let ghost tv = toks_view(toks@);
    let n = toks.len();
    if pos >= n {
        return Err(TokenStreamErrors::UnexpectedEof);
    }
    proof {
        assert(tv[pos as int] == toks@[pos as int]@);
    }
    match &toks[pos] {
        TokenType::CloseBrace => Ok((Expr::new_set(elems), pos + 1)),
        _ => {
            match parse_binding(toks, pos) {
                Ok((binding, k)) => {
                    let BindingExpr { ident, expr } = binding;
                    let mut elems = elems;
                    upsert_named(&mut elems, ident.name, expr);
                    parse_set_tail(toks, k, elems)
                },
                Err(e) => Err(e),
            }
        },
    }
}

/// A list literal body, after the opening bracket.
#[verifier::rlimit(50)]
fn parse_list(toks: &Vec<TokenType>, pos: usize) -> (r: Result<(Expr, usize), TokenStreamErrors>)
    requires
        pos <= toks@.len(),
    ensures
        parse_outcome_ok(
            toks_view(toks@),
            pos as int,
            spec_parse_list(toks_view(toks@), pos as int, Seq::empty()),
            r,
        ),
    decreases toks@.len() - pos, 4int,
{
    let elems: Vec<Expr> = Vec::new();
    proof {
        assert(exprs_view(elems@) =~= Seq::<ExprV>::empty());
    }
    parse_list_tail(toks, pos, elems)
}

/// The element loop of a list literal, carrying the elements collected so
/// far.
#[verifier::rlimit(100)]
#[verifier::spinoff_prover]
fn parse_list_tail(toks: &Vec<TokenType>, pos: usize, elems: Vec<Expr>) -> (r: Result<
    (Expr, usize),
    TokenStreamErrors,
>)
    requires
        pos <= toks@.len(),
    ensures
        match r {
            Ok((e, j)) => spec_parse_list(toks_view(toks@), pos as int, exprs_view(elems@)) == Ok::<
                (ExprV, int),
                ParseErrV,
            >((e@, j as int)) && pos < j <= toks@.len(),
            Err(er) => spec_parse_list(toks_view(toks@), pos as int, exprs_view(elems@)) == Err::<
                (ExprV, int),
                ParseErrV,
            >(er@),
        },
    decreases toks@.len() - pos, 3int,
{
    let ghost tv = toks_view(toks@);
    let n = toks.len();
    if pos >= n {
        return Err(TokenStreamErrors::UnexpectedEof);
    }
    proof {
        assert(tv[pos as int] == toks@[pos as int]@);
    }
    match &toks[pos] {
        TokenType::CloseSquare => Ok((Expr::new_list(elems), pos + 1)),
        _ => {
            match parse_term(toks, pos) {
                Ok((elem, k)) => {
                    proof {
                        lemma_exprs_view_push(elems@, elem);
                    }
                    let mut elems = elems;
                    elems.push(elem);
                    parse_list_tail(toks, k, elems)
                },
                Err(e) => Err(e),
            }
        },
    }
}

/// An `if cond then expr else expr` conditional.
#[verifier::rlimit(50)]
fn parse_if(toks: &Vec<TokenType>, pos: usize) -> (r: Result<(Expr, usize), TokenStreamErrors>)
    requires
        pos <= toks@.len(),
    ensures
        parse_outcome_ok(
            toks_view(toks@),
            pos as int,
            spec_parse_if(toks_view(toks@), pos as int),
            r,
        ),
    decreases toks@.len() - pos, 1int,
{
    let ghost tv = toks_view(toks@);
    let n = toks.len();
    if pos >= n {
        return Err(TokenStreamErrors::UnexpectedEof);
    }
    let (condition, j) = match parse_expr(toks, pos + 1) {
        Ok(v) => v,
        Err(e) => {
            return Err(e);
        },
    };
    if j >= n {
        return Err(TokenStreamErrors::UnexpectedEof);
    }
    proof {
        assert(tv[j as int] == toks@[j as int]@);
    }
    match &toks[j] {
        TokenType::Then => {},
        _ => {
            return Err(
                TokenStreamErrors::UnexpectedToken(
                    UnexpectedTokenError::new(&TokenType::Then, &toks[j]),
                ),
            );
        },
    }
    let (truthy, k) = match parse_expr(toks, j + 1) {
        Ok(v) => v,
        Err(e) => {
            return Err(e);
        },
    };
    if k >= n {
        return Err(TokenStreamErrors::UnexpectedEof);
    }
    proof {
        assert(tv[k as int] == toks@[k as int]@);
    }
    match &toks[k] {
        TokenType::Else => {},
        _ => {
            return Err(
                TokenStreamErrors::UnexpectedToken(
                    UnexpectedTokenError::new(&TokenType::Else, &toks[k]),
                ),
            );
        },
    }
    match parse_expr(toks, k + 1) {
        Ok((falsy, m)) => Ok((Expr::new_if(condition, truthy, falsy), m)),
        Err(e) => Err(e),
    }
}

/// The parser: owns the token sequence and a cursor into it.
pub struct AstParser {
    toks: Vec<TokenType>,
    pos: usize,
}

impl AstParser {
    /// The mathematical image of the token sequence this parser reads.
    pub closed spec fn spec_toks(&self) -> Seq<TokenV> {
        toks_view(self.toks@)
    }

    /// The cursor: the position of the next unread token.
    pub closed spec fn spec_pos(&self) -> int {
        self.pos as int
    }

    /// The cursor never passes the end of the token sequence.
    pub closed spec fn wf(&self) -> bool {
        self.pos <= self.toks@.len()
    }

    pub fn new(toks: Vec<TokenType>) -> (r: Self)
        ensures
            r.spec_toks() == toks_view(toks@),
            r.spec_pos() == 0,
            r.wf(),
    {
        Self { toks, pos: 0 }
    }

    /// Parses one expression from the cursor onward: returns the tree that
    /// the reference grammar assigns, advancing the cursor past it, or the
    /// reference syntax error, leaving the cursor in place.
    pub fn parse(&mut self) -> (r: Result<Ast, TokenStreamErrors>)
        requires
            old(self).wf(),
        ensures
            final(self).spec_toks() == old(self).spec_toks(),
            final(self).wf(),
            match r {
                Ok(e) => spec_parse_expr(old(self).spec_toks(), old(self).spec_pos()) == Ok::<
                    (ExprV, int),
                    ParseErrV,
                >((e@, final(self).spec_pos())),
                Err(er) => spec_parse_expr(old(self).spec_toks(), old(self).spec_pos()) == Err::<
                    (ExprV, int),
                    ParseErrV,
                >(er@) && final(self).spec_pos() == old(self).spec_pos(),
            },
    {
        match parse_expr(&self.toks, self.pos) {
            Ok((e, j)) => {
                self.pos = j;
                Ok(e)
            },
            Err(e) => Err(e),
        }
    }
}

} // verus!
