//! The syntax tree: expressions, statements and blocks.
//!
//! A tree is built once and never changed. Its model leaves out how the
//! tree is laid out in memory, and puts the binary nodes into one form with
//! the operator as a field.

use crate::types::{Arithmetic, Comparison, InputType, Logic, Value, ValueView};
use vstd::prelude::*;

verus! {

/// An expression.
#[derive(Debug, PartialEq)]
pub enum Expression {
    /// The value of the variable of this name.
    Variable(String),
    /// A literal.
    Value(Value),
    Sum(Box<Expression>, Box<Expression>),
    Sub(Box<Expression>, Box<Expression>),
    Mult(Box<Expression>, Box<Expression>),
    Div(Box<Expression>, Box<Expression>),
    Is(Box<Expression>, Box<Expression>),
    IsNot(Box<Expression>, Box<Expression>),
    Smlr(Box<Expression>, Box<Expression>),
    Bigr(Box<Expression>, Box<Expression>),
    SmlrEq(Box<Expression>, Box<Expression>),
    BigrEq(Box<Expression>, Box<Expression>),
    And(Box<Expression>, Box<Expression>),
    Or(Box<Expression>, Box<Expression>),
    /// A call of the function of this name on these arguments.
    FnCall(String, Vec<Expression>),
    /// One line read from the input, taken as the kind says.
    Entrada(InputType),
}

/// A statement. A block is a `Vec<Box<AstNode>>`.
#[derive(Debug, PartialEq)]
pub enum AstNode {
    /// Prints the values of the expressions on one line.
    Print(Vec<Expression>),
    /// A value standing alone; it does nothing.
    Val(Value),
    /// Binds the name in the innermost scope.
    Definition { ident: String, expr: Expression },
    /// Gives a new value to the nearest binding of the name.
    Assign { ident: String, expr: Expression },
    If { comp: Expression, block: Vec<Box<AstNode>>, senao: Option<Vec<Box<AstNode>>> },
    While { comp: Expression, block: Vec<Box<AstNode>> },
    /// Declares a function in the innermost scope.
    Function { ident: String, args: Vec<String>, block: Vec<Box<AstNode>> },
    /// Calls a function and drops what it returns.
    FnCall { ident: String, vars: Vec<Expression> },
    Return(Expression),
    /// Evaluates the expression and drops its value.
    Expression(Expression),
}

/// A binary operator.
#[derive(Clone, Copy, Debug, PartialEq, Eq, Structural)]
pub enum Operator {
    Arithmetic(Arithmetic),
    Comparison(Comparison),
    Logic(Logic),
}

/// The model of an [`Expression`].
pub enum ExprView {
    Variable(Seq<char>),
    Value(ValueView),
    Binary(Operator, Box<ExprView>, Box<ExprView>),
    FnCall(Seq<char>, Seq<ExprView>),
    Entrada(InputType),
}

/// The model of an [`AstNode`].
pub enum NodeView {
    Print(Seq<ExprView>),
    Val(ValueView),
    Definition { ident: Seq<char>, expr: ExprView },
    Assign { ident: Seq<char>, expr: ExprView },
    If { comp: ExprView, block: Seq<NodeView>, senao: Option<Seq<NodeView>> },
    While { comp: ExprView, block: Seq<NodeView> },
    Function { ident: Seq<char>, args: Seq<Seq<char>>, block: Seq<NodeView> },
    FnCall { ident: Seq<char>, vars: Seq<ExprView> },
    Return(ExprView),
    Expression(ExprView),
}

/// The model of a binary node.
pub open spec fn binary(op: Operator, left: ExprView, right: ExprView) -> ExprView {
    ExprView::Binary(op, Box::new(left), Box::new(right))
}

/// The model of `e`.
pub open spec fn expr_view(e: Expression) -> ExprView
    decreases e,
{
    match e {
        Expression::Variable(name) => ExprView::Variable(name@),
        Expression::Value(value) => ExprView::Value(value@),
        Expression::Sum(l, r) => binary(
            Operator::Arithmetic(Arithmetic::Sum),
            expr_view(*l),
            expr_view(*r),
        ),
        Expression::Sub(l, r) => binary(
            Operator::Arithmetic(Arithmetic::Sub),
            expr_view(*l),
            expr_view(*r),
        ),
        Expression::Mult(l, r) => binary(
            Operator::Arithmetic(Arithmetic::Mult),
            expr_view(*l),
            expr_view(*r),
        ),
        Expression::Div(l, r) => binary(
            Operator::Arithmetic(Arithmetic::Div),
            expr_view(*l),
            expr_view(*r),
        ),
        Expression::Is(l, r) => binary(
            Operator::Comparison(Comparison::Is),
            expr_view(*l),
            expr_view(*r),
        ),
        Expression::IsNot(l, r) => binary(
            Operator::Comparison(Comparison::IsNot),
            expr_view(*l),
            expr_view(*r),
        ),
        Expression::Smlr(l, r) => binary(
            Operator::Comparison(Comparison::Smlr),
            expr_view(*l),
            expr_view(*r),
        ),
        Expression::Bigr(l, r) => binary(
            Operator::Comparison(Comparison::Bigr),
            expr_view(*l),
            expr_view(*r),
        ),
        Expression::SmlrEq(l, r) => binary(
            Operator::Comparison(Comparison::SmlrEq),
            expr_view(*l),
            expr_view(*r),
        ),
        Expression::BigrEq(l, r) => binary(
            Operator::Comparison(Comparison::BigrEq),
            expr_view(*l),
            expr_view(*r),
        ),
        Expression::And(l, r) => binary(Operator::Logic(Logic::And), expr_view(*l), expr_view(*r)),
        Expression::Or(l, r) => binary(Operator::Logic(Logic::Or), expr_view(*l), expr_view(*r)),
        Expression::FnCall(name, args) => ExprView::FnCall(name@, exprs_view(args@)),
        Expression::Entrada(kind) => ExprView::Entrada(kind),
    }
}

/// The models of the expressions of `s`, in order.
pub open spec fn exprs_view(s: Seq<Expression>) -> Seq<ExprView>
    decreases s,
{
    Seq::new(
        s.len(),
        |i: int|
            if 0 <= i < s.len() {
                expr_view(s[i])
            } else {
                arbitrary()
            },
    )
}

/// The model of `n`.
pub open spec fn node_view(n: AstNode) -> NodeView
    decreases n,
{
    match n {
        AstNode::Print(exprs) => NodeView::Print(exprs_view(exprs@)),
        AstNode::Val(value) => NodeView::Val(value@),
        AstNode::Definition { ident, expr } => NodeView::Definition {
            ident: ident@,
            expr: expr_view(expr),
        },
        AstNode::Assign { ident, expr } => NodeView::Assign { ident: ident@, expr: expr_view(expr) },
        AstNode::If { comp, block, senao } => NodeView::If {
            comp: expr_view(comp),
            block: block_view(block@),
            senao: match senao {
                Some(other) => Some(block_view(other@)),
                None => None,
            },
        },
        AstNode::While { comp, block } => NodeView::While {
            comp: expr_view(comp),
            block: block_view(block@),
        },
        AstNode::Function { ident, args, block } => NodeView::Function {
            ident: ident@,
            args: names_view(args@),
            block: block_view(block@),
        },
        AstNode::FnCall { ident, vars } => NodeView::FnCall {
            ident: ident@,
            vars: exprs_view(vars@),
        },
        AstNode::Return(expr) => NodeView::Return(expr_view(expr)),
        AstNode::Expression(expr) => NodeView::Expression(expr_view(expr)),
    }
}

/// The models of the statements of the block `s`, in order.
pub open spec fn block_view(s: Seq<Box<AstNode>>) -> Seq<NodeView>
    decreases s,
{
    Seq::new(
        s.len(),
        |i: int|
            if 0 <= i < s.len() {
                node_view(*s[i])
            } else {
                arbitrary()
            },
    )
}

/// The names of `s` as sequences of characters.
pub open spec fn names_view(s: Seq<String>) -> Seq<Seq<char>> {
    Seq::new(s.len(), |i: int| s[i]@)
}

impl View for Expression {
    type V = ExprView;

    open spec fn view(&self) -> ExprView {
        expr_view(*self)
    }
}

impl View for AstNode {
    type V = NodeView;

    open spec fn view(&self) -> NodeView {
        node_view(*self)
    }
}

/// A copy of the names `names`.
pub fn clone_names(names: &Vec<String>) -> (out: Vec<String>)
    ensures
        names_view(out@) == names_view(names@),
{
    let mut out: Vec<String> = Vec::new();
    let mut i: usize = 0;
    while i < names.len()
        invariant
            i <= names.len(),
            out.len() == i,
            forall|j: int| 0 <= j < i ==> out@[j]@ == names@[j]@,
        decreases names.len() - i,
    {
        out.push(names[i].clone());
        i += 1;
    }
    assert(names_view(out@) =~= names_view(names@));
    out
}

/// A copy of the expressions `exprs`.
pub fn clone_exprs(exprs: &Vec<Expression>) -> (out: Vec<Expression>)
    ensures
        exprs_view(out@) == exprs_view(exprs@),
    decreases exprs,
{
    let mut out: Vec<Expression> = Vec::new();
    let mut i: usize = 0;
    while i < exprs.len()
        invariant
            i <= exprs.len(),
            out.len() == i,
            forall|j: int| 0 <= j < i ==> expr_view(out@[j]) == expr_view(exprs@[j]),
        decreases exprs.len() - i,
    {
        out.push(exprs[i].clone());
        i += 1;
    }
    assert(exprs_view(out@) =~= exprs_view(exprs@));
    out
}

/// A copy of the block `block`.
pub fn clone_block(block: &Vec<Box<AstNode>>) -> (out: Vec<Box<AstNode>>)
    ensures
        block_view(out@) == block_view(block@),
    decreases block,
{
    let mut out: Vec<Box<AstNode>> = Vec::new();
    let mut i: usize = 0;
    while i < block.len()
        invariant
            i <= block.len(),
            out.len() == i,
            forall|j: int| 0 <= j < i ==> node_view(*out@[j]) == node_view(*block@[j]),
        decreases block.len() - i,
    {
        out.push(Box::new((*block[i]).clone()));
        i += 1;
    }
    assert(block_view(out@) =~= block_view(block@));
    out
}

impl Clone for Expression {
    fn clone(&self) -> (r: Expression)
        ensures
            r@ == self@,
        decreases self,
    {
        match self {
            Expression::Variable(name) => Expression::Variable(name.clone()),
            Expression::Value(value) => Expression::Value(value.clone()),
            Expression::Sum(l, r) => Expression::Sum(
                Box::new((**l).clone()),
                Box::new((**r).clone()),
            ),
            Expression::Sub(l, r) => Expression::Sub(
                Box::new((**l).clone()),
                Box::new((**r).clone()),
            ),
            Expression::Mult(l, r) => Expression::Mult(
                Box::new((**l).clone()),
                Box::new((**r).clone()),
            ),
            Expression::Div(l, r) => Expression::Div(
                Box::new((**l).clone()),
                Box::new((**r).clone()),
            ),
            Expression::Is(l, r) => Expression::Is(
                Box::new((**l).clone()),
                Box::new((**r).clone()),
            ),
            Expression::IsNot(l, r) => Expression::IsNot(
                Box::new((**l).clone()),
                Box::new((**r).clone()),
            ),
            Expression::Smlr(l, r) => Expression::Smlr(
                Box::new((**l).clone()),
                Box::new((**r).clone()),
            ),
            Expression::Bigr(l, r) => Expression::Bigr(
                Box::new((**l).clone()),
                Box::new((**r).clone()),
            ),
            Expression::SmlrEq(l, r) => Expression::SmlrEq(
                Box::new((**l).clone()),
                Box::new((**r).clone()),
            ),
            Expression::BigrEq(l, r) => Expression::BigrEq(
                Box::new((**l).clone()),
                Box::new((**r).clone()),
            ),
            Expression::And(l, r) => Expression::And(
                Box::new((**l).clone()),
                Box::new((**r).clone()),
            ),
            Expression::Or(l, r) => Expression::Or(
                Box::new((**l).clone()),
                Box::new((**r).clone()),
            ),
            Expression::FnCall(name, args) => Expression::FnCall(name.clone(), clone_exprs(args)),
            Expression::Entrada(kind) => Expression::Entrada(*kind),
        }
    }
}

impl Clone for AstNode {
    fn clone(&self) -> (r: AstNode)
        ensures
            r@ == self@,
        decreases self,
    {
        match self {
            AstNode::Print(exprs) => AstNode::Print(clone_exprs(exprs)),
            AstNode::Val(value) => AstNode::Val(value.clone()),
            AstNode::Definition { ident, expr } => AstNode::Definition {
                ident: ident.clone(),
                expr: expr.clone(),
            },
            AstNode::Assign { ident, expr } => AstNode::Assign {
                ident: ident.clone(),
                expr: expr.clone(),
            },
            AstNode::If { comp, block, senao } => AstNode::If {
                comp: comp.clone(),
                block: clone_block(block),
                senao: match senao {
                    Some(other) => Some(clone_block(other)),
                    None => None,
                },
            },
            AstNode::While { comp, block } => AstNode::While {
                comp: comp.clone(),
                block: clone_block(block),
            },
            AstNode::Function { ident, args, block } => AstNode::Function {
                ident: ident.clone(),
                args: clone_names(args),
                block: clone_block(block),
            },
            AstNode::FnCall { ident, vars } => AstNode::FnCall {
                ident: ident.clone(),
                vars: clone_exprs(vars),
            },
            AstNode::Return(expr) => AstNode::Return(expr.clone()),
            AstNode::Expression(expr) => AstNode::Expression(expr.clone()),
        }
    }
}

} // verus!
