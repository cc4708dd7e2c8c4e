//! From a parse tree to the syntax tree.
//!
//! The grammar itself is not here. A front end matches a program's text
//! against it and hands over the outcome as a [`ParseTree`]: for each match
//! the rule, the text, and the matches inside it. This module turns such a
//! tree into [`Expression`]s and [`AstNode`]s, and says what is wrong with a
//! tree that stands for none.

use crate::ast::{
    binary, block_view, exprs_view, names_view, AstNode, ExprView, Expression, NodeView, Operator,
};
use crate::error::{result_view, Error, ErrorView, ParserError, ParserErrorView};
use crate::text::{chars_of, integer_of, parse_integer};
use crate::types::{Arithmetic, Comparison, Float, InputType, Value, ValueView};
use vstd::prelude::*;
use vstd::string::StrSliceExecFns;

verus! {

/// The rules of the grammar.
#[derive(Clone, Copy, Debug, PartialEq, Eq, Structural)]
pub enum Rule {
    /// A whole program: lines.
    Program,
    /// One statement.
    Line,
    Ident,
    Integer,
    Float,
    String,
    Verdadeiro,
    Falso,
    SumExpr,
    SubtractionExpr,
    MultiplyExpr,
    DivideExpr,
    /// A name, and the arguments in a `FunctionSignature` if there are any.
    FunctionCall,
    /// The parameters of a function or the arguments of a call.
    FunctionSignature,
    EntradaNumero,
    EntradaTexto,
    /// A left operand, an operator that compares, a right operand.
    CompExpr,
    IsOp,
    ForOp,
    IsNotOp,
    NaoForOp,
    BiggerThan,
    NotSmallerThanEq,
    SmallerThan,
    NotBiggerThanEq,
    BiggerThanEq,
    NotSmallerThan,
    SmallerThanEq,
    NotBiggerThan,
    /// A condition, a block, and a `Senao` if there is one.
    Se,
    /// A block.
    Senao,
    /// A condition and a block.
    Enquanto,
    /// A name and an expression.
    DefineVariable,
    /// A name and an expression.
    AssignVariable,
    /// Expressions.
    Mostre,
    /// A name, the parameters in a `FunctionSignature` if there are any, and
    /// a block.
    Function,
    /// An expression.
    Retorne,
    /// Lines.
    Block,
    /// Any other rule.
    Other,
}

/// One match of a rule.
#[derive(Debug, PartialEq)]
pub struct ParseTree {
    pub rule: Rule,
    /// The text that the rule matched.
    pub text: String,
    /// For a `Float`, the number that the text stands for.
    pub number: Option<Float>,
    /// The matches inside this one, in the order of the text.
    pub children: Vec<ParseTree>,
}

/// The model of a [`ParseTree`].
pub struct TreeView {
    pub rule: Rule,
    pub text: Seq<char>,
    pub number: Option<Float>,
    pub children: Seq<TreeView>,
}

/// The model of `tree`.
pub open spec fn tree_view(tree: ParseTree) -> TreeView
    decreases tree,
{
    TreeView {
        rule: tree.rule,
        text: tree.text@,
        number: tree.number,
        children: trees_view(tree.children@),
    }
}

/// The models of the trees of `s`, in order.
pub open spec fn trees_view(s: Seq<ParseTree>) -> Seq<TreeView>
    decreases s,
{
    Seq::new(
        s.len(),
        |i: int|
            if 0 <= i < s.len() {
                tree_view(s[i])
            } else {
                arbitrary()
            },
    )
}

impl View for ParseTree {
    type V = TreeView;

    open spec fn view(&self) -> TreeView {
        tree_view(*self)
    }
}

/// The error for a tree with the text `text` that stands for no expression.
pub open spec fn not_an_expression(text: Seq<char>) -> ErrorView {
    ErrorView::ParserError(ParserErrorView::NotAnExpression(text))
}

/// The error for a tree with the text `text` that stands for no statement.
pub open spec fn not_a_statement(text: Seq<char>) -> ErrorView {
    ErrorView::ParserError(ParserErrorView::NotAST(text))
}

/// The error for a literal `text` that is none of the kind `kind`.
pub open spec fn bad_literal(text: Seq<char>, kind: Seq<char>) -> ErrorView {
    ErrorView::ParserError(ParserErrorView::ParseError(text, kind))
}

/// The error for an expression `text` that lacks its part `part`.
pub open spec fn incomplete_expr(text: Seq<char>, part: Seq<char>) -> ErrorView {
    ErrorView::ParserError(ParserErrorView::IncompleteExpr(text, part))
}

/// The error for a call `text` that lacks the name of the function.
pub open spec fn incomplete_call(text: Seq<char>) -> ErrorView {
    ErrorView::ParserError(ParserErrorView::IncompleteFnCall(text, "identifier"@))
}

/// The error for an operator `text` that compares nothing.
pub open spec fn unsupported_operator(text: Seq<char>) -> ErrorView {
    ErrorView::ParserError(ParserErrorView::UnsupportedOperator(text))
}

/// Whether `text` stands between two double quotes.
pub open spec fn quoted(text: Seq<char>) -> bool {
    text.len() >= 2 && text[0] == '"' && text.last() == '"'
}

impl Rule {
    /// The operator of arithmetic that the rule is the expression of.
    pub open spec fn arithmetic(self) -> Option<Arithmetic> {
        match self {
            Rule::SumExpr => Some(Arithmetic::Sum),
            Rule::SubtractionExpr => Some(Arithmetic::Sub),
            Rule::MultiplyExpr => Some(Arithmetic::Mult),
            Rule::DivideExpr => Some(Arithmetic::Div),
            _ => None,
        }
    }

    /// The operator that the rule stands for, if it stands for one that
    /// compares. An operator and the denial of its opposite are one.
    pub open spec fn comparison(self) -> Option<Comparison> {
        match self {
            Rule::IsOp | Rule::ForOp => Some(Comparison::Is),
            Rule::IsNotOp | Rule::NaoForOp => Some(Comparison::IsNot),
            Rule::BiggerThan | Rule::NotSmallerThanEq => Some(Comparison::Bigr),
            Rule::SmallerThan | Rule::NotBiggerThanEq => Some(Comparison::Smlr),
            Rule::BiggerThanEq | Rule::NotSmallerThan => Some(Comparison::BigrEq),
            Rule::SmallerThanEq | Rule::NotBiggerThan => Some(Comparison::SmlrEq),
            _ => None,
        }
    }

    fn as_arithmetic(self) -> (r: Option<Arithmetic>)
        ensures
            r == self.arithmetic(),
    {
        match self {
            Rule::SumExpr => Some(Arithmetic::Sum),
            Rule::SubtractionExpr => Some(Arithmetic::Sub),
            Rule::MultiplyExpr => Some(Arithmetic::Mult),
            Rule::DivideExpr => Some(Arithmetic::Div),
            _ => None,
        }
    }

    fn as_comparison(self) -> (r: Option<Comparison>)
        ensures
            r == self.comparison(),
    {
        match self {
            Rule::IsOp | Rule::ForOp => Some(Comparison::Is),
            Rule::IsNotOp | Rule::NaoForOp => Some(Comparison::IsNot),
            Rule::BiggerThan | Rule::NotSmallerThanEq => Some(Comparison::Bigr),
            Rule::SmallerThan | Rule::NotBiggerThanEq => Some(Comparison::Smlr),
            Rule::BiggerThanEq | Rule::NotSmallerThan => Some(Comparison::BigrEq),
            Rule::SmallerThanEq | Rule::NotBiggerThan => Some(Comparison::SmlrEq),
            _ => None,
        }
    }
}

/// The expressions that the trees of `s` stand for, or the error of the
/// first that stands for none.
pub open spec fn expressions(s: Seq<TreeView>) -> Result<Seq<ExprView>, ErrorView>
    decreases s, 0nat,
{
    if s.len() == 0 {
        Ok(Seq::empty())
    } else {
        match expressions(s.drop_last()) {
            Err(error) => Err(error),
            Ok(before) => match s.last().expression() {
                Err(error) => Err(error),
                Ok(expr) => Ok(before.push(expr)),
            },
        }
    }
}

/// The statements that the trees of `s` stand for, or the error of the
/// first that stands for none.
pub open spec fn statements(s: Seq<TreeView>) -> Result<Seq<NodeView>, ErrorView>
    decreases s, 0nat,
{
    if s.len() == 0 {
        Ok(Seq::empty())
    } else {
        match statements(s.drop_last()) {
            Err(error) => Err(error),
            Ok(before) => match s.last().statement() {
                Err(error) => Err(error),
                Ok(node) => Ok(before.push(node)),
            },
        }
    }
}

/// The statements that the lines among the trees of `s` stand for, or the
/// error of the first line that stands for none.
pub open spec fn lines(s: Seq<TreeView>) -> Result<Seq<NodeView>, ErrorView>
    decreases s, 0nat,
{
    if s.len() == 0 {
        Ok(Seq::empty())
    } else {
        match lines(s.drop_last()) {
            Err(error) => Err(error),
            Ok(before) => if s.last().rule is Line {
                match s.last().statement() {
                    Err(error) => Err(error),
                    Ok(node) => Ok(before.push(node)),
                }
            } else {
                Ok(before)
            },
        }
    }
}

/// The texts of the trees of `s`.
pub open spec fn texts(s: Seq<TreeView>) -> Seq<Seq<char>> {
    Seq::new(s.len(), |i: int| s[i].text)
}

impl TreeView {
    /// The expression that the tree stands for:
    /// - a name, a literal or an input expression by its own rule; an
    ///   integer literal must be the numeral of a 32-bit integer, a number
    ///   must have been read, a string must stand in quotes;
    /// - an expression of arithmetic from its two operands;
    /// - a comparison from its operands and its operator;
    /// - a call from its name and its arguments.
    pub open spec fn expression(self) -> Result<ExprView, ErrorView>
        decreases self, 2nat,
    {
        match self.rule {
            Rule::Ident => Ok(ExprView::Variable(self.text)),
            Rule::Integer => match integer_of(self.text) {
                Some(i) => Ok(ExprView::Value(ValueView::Integer(i))),
                None => Err(bad_literal(self.text, "i32"@)),
            },
            Rule::Float => match self.number {
                Some(number) => Ok(ExprView::Value(ValueView::Float(number))),
                None => Err(bad_literal(self.text, "f32"@)),
            },
            Rule::String => if quoted(self.text) {
                Ok(ExprView::Value(ValueView::String(self.text.subrange(1, self.text.len() - 1))))
            } else {
                Err(not_an_expression(self.text))
            },
            Rule::Verdadeiro => Ok(ExprView::Value(ValueView::Bool(true))),
            Rule::Falso => Ok(ExprView::Value(ValueView::Bool(false))),
            Rule::SumExpr | Rule::SubtractionExpr | Rule::MultiplyExpr | Rule::DivideExpr =>
                if self.children.len() < 1 {
                Err(incomplete_expr(self.text, "left"@))
            } else if self.children.len() < 2 {
                Err(incomplete_expr(self.text, "right"@))
            } else {
                match self.operands(1) {
                    Err(error) => Err(error),
                    Ok((l, r)) => Ok(
                        binary(Operator::Arithmetic(self.rule.arithmetic().unwrap()), l, r),
                    ),
                }
            },
            Rule::CompExpr => if self.children.len() < 1 {
                Err(incomplete_expr(self.text, "left"@))
            } else if self.children.len() < 2 {
                Err(incomplete_expr(self.text, "operator"@))
            } else if self.children.len() < 3 {
                Err(incomplete_expr(self.text, "right"@))
            } else {
                match self.operands(2) {
                    Err(error) => Err(error),
                    Ok((l, r)) => match self.children[1].rule.comparison() {
                        Some(op) => Ok(binary(Operator::Comparison(op), l, r)),
                        None => Err(unsupported_operator(self.children[1].text)),
                    },
                }
            },
            Rule::FunctionCall => if self.children.len() < 1 {
                Err(incomplete_call(self.text))
            } else {
                match self.arguments() {
                    Err(error) => Err(error),
                    Ok(args) => Ok(ExprView::FnCall(self.children[0].text, args)),
                }
            },
            Rule::EntradaNumero => Ok(ExprView::Entrada(InputType::Number)),
            Rule::EntradaTexto => Ok(ExprView::Entrada(InputType::String)),
            _ => Err(not_an_expression(self.text)),
        }
    }

    /// The expressions that the first child and the child at `right` stand
    /// for.
    pub open spec fn operands(self, right: int) -> Result<(ExprView, ExprView), ErrorView>
        recommends
            0 < right < self.children.len(),
        decreases self, 1nat,
    {
        if 0 < right < self.children.len() {
            match self.children[0].expression() {
                Err(error) => Err(error),
                Ok(l) => match self.children[right].expression() {
                    Err(error) => Err(error),
                    Ok(r) => Ok((l, r)),
                },
            }
        } else {
            Err(incomplete_expr(self.text, "right"@))
        }
    }

    /// The arguments of a call: the expressions of the second child if that
    /// is a `FunctionSignature`, else none.
    pub open spec fn arguments(self) -> Result<Seq<ExprView>, ErrorView>
        decreases self, 1nat,
    {
        if self.children.len() >= 2 && self.children[1].rule is FunctionSignature {
            expressions(self.children[1].children)
        } else {
            Ok(Seq::empty())
        }
    }

    /// The block that the child at `at` holds the lines of.
    pub open spec fn block(self, at: int) -> Result<Seq<NodeView>, ErrorView>
        decreases self, 1nat,
    {
        if 0 <= at < self.children.len() {
            statements(self.children[at].children)
        } else {
            Err(not_a_statement(self.text))
        }
    }

    /// The expression that the child at `at` stands for.
    pub open spec fn part(self, at: int) -> Result<ExprView, ErrorView>
        decreases self, 1nat,
    {
        if 0 <= at < self.children.len() {
            self.children[at].expression()
        } else {
            Err(not_a_statement(self.text))
        }
    }

    /// The block of a `Senao` that stands at `at`, if anything stands
    /// there: the block that its first child holds the lines of.
    pub open spec fn otherwise(self, at: int) -> Result<Option<Seq<NodeView>>, ErrorView>
        decreases self, 1nat,
    {
        if 0 <= at < self.children.len() {
            match self.children[at].block(0) {
                Err(error) => Err(error),
                Ok(block) => Ok(Some(block)),
            }
        } else {
            Ok(None)
        }
    }

    /// The statement that the tree stands for.
    pub open spec fn statement(self) -> Result<NodeView, ErrorView>
        decreases self, 2nat,
    {
        match self.rule {
            Rule::Line => if self.children.len() < 1 {
                Err(not_a_statement(self.text))
            } else {
                self.children[0].statement()
            },
            Rule::Se => match self.part(0) {
                Err(error) => Err(error),
                Ok(comp) => match self.block(1) {
                    Err(error) => Err(error),
                    Ok(block) => match self.otherwise(2) {
                        Err(error) => Err(error),
                        Ok(senao) => Ok(NodeView::If { comp, block, senao }),
                    },
                },
            },
            Rule::Enquanto => match self.part(0) {
                Err(error) => Err(error),
                Ok(comp) => match self.block(1) {
                    Err(error) => Err(error),
                    Ok(block) => Ok(NodeView::While { comp, block }),
                },
            },
            Rule::DefineVariable => match self.part(1) {
                Err(error) => Err(error),
                Ok(expr) => Ok(NodeView::Definition { ident: self.children[0].text, expr }),
            },
            Rule::AssignVariable => match self.part(1) {
                Err(error) => Err(error),
                Ok(expr) => Ok(NodeView::Assign { ident: self.children[0].text, expr }),
            },
            Rule::Mostre => match expressions(self.children) {
                Err(error) => Err(error),
                Ok(exprs) => Ok(NodeView::Print(exprs)),
            },
            Rule::Function => if self.children.len() >= 2 && self.children[1].rule
                is FunctionSignature {
                match self.block(2) {
                    Err(error) => Err(error),
                    Ok(block) => Ok(
                        NodeView::Function {
                            ident: self.children[0].text,
                            args: texts(self.children[1].children),
                            block,
                        },
                    ),
                }
            } else {
                match self.block(1) {
                    Err(error) => Err(error),
                    Ok(block) => Ok(
                        NodeView::Function {
                            ident: self.children[0].text,
                            args: Seq::empty(),
                            block,
                        },
                    ),
                }
            },
            Rule::FunctionCall => if self.children.len() < 1 {
                Err(incomplete_call(self.text))
            } else {
                match self.arguments() {
                    Err(error) => Err(error),
                    Ok(vars) => Ok(NodeView::FnCall { ident: self.children[0].text, vars }),
                }
            },
            Rule::Retorne => match self.part(0) {
                Err(error) => Err(error),
                Ok(expr) => Ok(NodeView::Return(expr)),
            },
            _ => Err(not_a_statement(self.text)),
        }
    }

    /// The program that the tree stands for: the statements of the lines
    /// among its children.
    pub open spec fn program(self) -> Result<Seq<NodeView>, ErrorView> {
        lines(self.children)
    }
}

/// The model of what building expressions gives: the models of the
/// expressions, or that of the error.
pub open spec fn exprs_result(r: Result<Vec<Expression>, Error>) -> Result<
    Seq<ExprView>,
    ErrorView,
> {
    match r {
        Ok(exprs) => Ok(exprs_view(exprs@)),
        Err(error) => Err(error@),
    }
}

/// The model of what building a block gives: the models of the
/// statements, or that of the error.
pub open spec fn block_result(r: Result<Vec<Box<AstNode>>, Error>) -> Result<
    Seq<NodeView>,
    ErrorView,
> {
    match r {
        Ok(block) => Ok(block_view(block@)),
        Err(error) => Err(error@),
    }
}

/// The model of what building two operands gives.
pub open spec fn operands_result(r: Result<(Expression, Expression), Error>) -> Result<
    (ExprView, ExprView),
    ErrorView,
> {
    match r {
        Ok((left, right)) => Ok((left@, right@)),
        Err(error) => Err(error@),
    }
}

/// The model of what building a block that may be missing gives.
pub open spec fn otherwise_result(r: Result<Option<Vec<Box<AstNode>>>, Error>) -> Result<
    Option<Seq<NodeView>>,
    ErrorView,
> {
    match r {
        Ok(Some(block)) => Ok(Some(block_view(block@))),
        Ok(None) => Ok(None),
        Err(error) => Err(error@),
    }
}

/// The model of a child is the child of the model.
proof fn lemma_child(tree: &ParseTree, at: int)
    requires
        0 <= at < tree.children.len(),
    ensures
        tree@.children[at] == tree.children@[at]@,
        tree@.children[at].children == trees_view(tree.children@[at].children@),
        tree@.children[at].text == tree.children@[at].text@,
        tree@.children[at].rule == tree.children@[at].rule,
{
}

/// An error among the first trees is the error of them all.
proof fn lemma_expressions_fail_early(s: Seq<TreeView>, k: int)
    requires
        0 <= k <= s.len(),
        expressions(s.take(k)) is Err,
    ensures
        expressions(s) == expressions(s.take(k)),
    decreases s.len() - k,
{
    if k == s.len() {
        assert(s.take(k) =~= s);
    } else {
        assert(s.take(k + 1).drop_last() =~= s.take(k));
        lemma_expressions_fail_early(s, k + 1);
    }
}

/// An error among the first trees is the error of them all.
proof fn lemma_statements_fail_early(s: Seq<TreeView>, k: int)
    requires
        0 <= k <= s.len(),
        statements(s.take(k)) is Err,
    ensures
        statements(s) == statements(s.take(k)),
    decreases s.len() - k,
{
    if k == s.len() {
        assert(s.take(k) =~= s);
    } else {
        assert(s.take(k + 1).drop_last() =~= s.take(k));
        lemma_statements_fail_early(s, k + 1);
    }
}

/// An error among the first trees is the error of them all.
proof fn lemma_lines_fail_early(s: Seq<TreeView>, k: int)
    requires
        0 <= k <= s.len(),
        lines(s.take(k)) is Err,
    ensures
        lines(s) == lines(s.take(k)),
    decreases s.len() - k,
{
    if k == s.len() {
        assert(s.take(k) =~= s);
    } else {
        assert(s.take(k + 1).drop_last() =~= s.take(k));
        lemma_lines_fail_early(s, k + 1);
    }
}

fn not_ast(tree: &ParseTree) -> (e: Error)
    ensures
        e@ == not_a_statement(tree@.text),
{
    Error::ParserError(ParserError::NotAST(tree.text.clone()))
}

fn incomplete(tree: &ParseTree, part: &str) -> (e: Error)
    ensures
        e@ == incomplete_expr(tree@.text, part@),
{
    Error::ParserError(ParserError::IncompleteExpr(tree.text.clone(), part.to_owned()))
}

fn no_identifier(tree: &ParseTree) -> (e: Error)
    ensures
        e@ == incomplete_call(tree@.text),
{
    Error::ParserError(ParserError::IncompleteFnCall(tree.text.clone(), "identifier".to_owned()))
}

fn literal(tree: &ParseTree, kind: &str) -> (e: Error)
    ensures
        e@ == bad_literal(tree@.text, kind@),
{
    Error::ParserError(ParserError::ParseError(tree.text.clone(), kind.to_owned()))
}

/// What stands between the quotes of `text`, if it stands in quotes.
fn unquote(text: &str) -> (r: Option<String>)
    ensures
        r is Some <==> quoted(text@),
        r matches Some(inner) ==> inner@ == text@.subrange(1, text@.len() - 1),
{
    let chars = chars_of(text);
    let n = chars.len();
    if n >= 2 && chars[0] == '"' && chars[n - 1] == '"' {
        Some(text.substring_char(1, n - 1).to_owned())
    } else {
        None
    }
}

fn build_exprs(trees: &Vec<ParseTree>) -> (r: Result<Vec<Expression>, Error>)
    ensures
        exprs_result(r) == expressions(trees_view(trees@)),
    decreases trees, 0nat,
{
    let ghost all = trees_view(trees@);
    let mut exprs: Vec<Expression> = Vec::new();
    let mut i: usize = 0;
    assert(all.take(0) =~= Seq::empty());
    assert(exprs_view(exprs@) =~= Seq::empty());
    while i < trees.len()
        invariant
            i <= trees.len(),
            all == trees_view(trees@),
            expressions(all.take(i as int)) == Ok::<Seq<ExprView>, ErrorView>(exprs_view(exprs@)),
        decreases trees.len() - i,
    {
        let ghost before = exprs@;
        assert(all.take(i + 1).drop_last() =~= all.take(i as int));
        match build_expr(&trees[i]) {
            Ok(expr) => {
                exprs.push(expr);
                assert(exprs_view(exprs@) =~= exprs_view(before).push(expr@));
            },
            Err(error) => {
                proof {
                    lemma_expressions_fail_early(all, i + 1);
                }
                return Err(error);
            },
        }
        i += 1;
    }
    assert(all.take(i as int) =~= all);
    Ok(exprs)
}

fn build_block(trees: &Vec<ParseTree>) -> (r: Result<Vec<Box<AstNode>>, Error>)
    ensures
        block_result(r) == statements(trees_view(trees@)),
    decreases trees, 0nat,
{
    let ghost all = trees_view(trees@);
    let mut block: Vec<Box<AstNode>> = Vec::new();
    let mut i: usize = 0;
    assert(all.take(0) =~= Seq::empty());
    assert(block_view(block@) =~= Seq::empty());
    while i < trees.len()
        invariant
            i <= trees.len(),
            all == trees_view(trees@),
            statements(all.take(i as int)) == Ok::<Seq<NodeView>, ErrorView>(block_view(block@)),
        decreases trees.len() - i,
    {
        let ghost before = block@;
        assert(all.take(i + 1).drop_last() =~= all.take(i as int));
        match build_ast_from_expr(&trees[i]) {
            Ok(node) => {
                block.push(Box::new(node));
                assert(block_view(block@) =~= block_view(before).push(node@));
            },
            Err(error) => {
                proof {
                    lemma_statements_fail_early(all, i + 1);
                }
                return Err(error);
            },
        }
        i += 1;
    }
    assert(all.take(i as int) =~= all);
    Ok(block)
}

fn texts_of(trees: &Vec<ParseTree>) -> (names: Vec<String>)
    ensures
        names_view(names@) == texts(trees_view(trees@)),
{
    let mut names: Vec<String> = Vec::new();
    let mut i: usize = 0;
    while i < trees.len()
        invariant
            i <= trees.len(),
            names.len() == i,
            forall|j: int| 0 <= j < i ==> names@[j]@ == trees@[j].text@,
        decreases trees.len() - i,
    {
        names.push(trees[i].text.clone());
        i += 1;
    }
    assert(names_view(names@) =~= texts(trees_view(trees@)));
    names
}

fn build_operands(tree: &ParseTree, right: usize) -> (r: Result<(Expression, Expression), Error>)
    requires
        0 < right < tree.children.len(),
    ensures
        operands_result(r) == tree@.operands(right as int),
    decreases tree, 1nat,
{
    proof {
        lemma_child(tree, 0);
        lemma_child(tree, right as int);
    }
    let l = match build_expr(&tree.children[0]) {
        Ok(l) => l,
        Err(error) => {
            return Err(error);
        },
    };
    match build_expr(&tree.children[right]) {
        Ok(r) => Ok((l, r)),
        Err(error) => Err(error),
    }
}

fn arithmetic_of(op: Arithmetic, l: Expression, r: Expression) -> (e: Expression)
    ensures
        e@ == binary(Operator::Arithmetic(op), l@, r@),
{
    match op {
        Arithmetic::Sum => Expression::Sum(Box::new(l), Box::new(r)),
        Arithmetic::Sub => Expression::Sub(Box::new(l), Box::new(r)),
        Arithmetic::Mult => Expression::Mult(Box::new(l), Box::new(r)),
        Arithmetic::Div => Expression::Div(Box::new(l), Box::new(r)),
    }
}

fn comparison_of(op: Comparison, l: Expression, r: Expression) -> (e: Expression)
    ensures
        e@ == binary(Operator::Comparison(op), l@, r@),
{
    match op {
        Comparison::Is => Expression::Is(Box::new(l), Box::new(r)),
        Comparison::IsNot => Expression::IsNot(Box::new(l), Box::new(r)),
        Comparison::Smlr => Expression::Smlr(Box::new(l), Box::new(r)),
        Comparison::Bigr => Expression::Bigr(Box::new(l), Box::new(r)),
        Comparison::SmlrEq => Expression::SmlrEq(Box::new(l), Box::new(r)),
        Comparison::BigrEq => Expression::BigrEq(Box::new(l), Box::new(r)),
    }
}

fn build_arguments(tree: &ParseTree) -> (r: Result<Vec<Expression>, Error>)
    ensures
        exprs_result(r) == tree@.arguments(),
    decreases tree, 1nat,
{
    proof {
        if tree.children.len() >= 2 {
            lemma_child(tree, 1);
        }
    }
    if tree.children.len() >= 2 && tree.children[1].rule == Rule::FunctionSignature {
        build_exprs(&tree.children[1].children)
    } else {
        let none: Vec<Expression> = Vec::new();
        assert(exprs_view(none@) =~= Seq::empty());
        Ok(none)
    }
}

fn build_part(tree: &ParseTree, at: usize) -> (r: Result<Expression, Error>)
    ensures
        result_view(r) == tree@.part(at as int),
    decreases tree, 1nat,
{
    if at < tree.children.len() {
        proof {
            lemma_child(tree, at as int);
        }
        build_expr(&tree.children[at])
    } else {
        Err(not_ast(tree))
    }
}

fn build_block_at(tree: &ParseTree, at: usize) -> (r: Result<Vec<Box<AstNode>>, Error>)
    ensures
        block_result(r) == tree@.block(at as int),
    decreases tree, 1nat,
{
    if at < tree.children.len() {
        proof {
            lemma_child(tree, at as int);
        }
        build_block(&tree.children[at].children)
    } else {
        Err(not_ast(tree))
    }
}

/// The expression that `tree` stands for.
pub fn build_expr(tree: &ParseTree) -> (r: Result<Expression, Error>)
    ensures
        result_view(r) == tree@.expression(),
    decreases tree, 2nat,
{
    proof {
        if tree.children.len() > 0 {
            lemma_child(tree, 0);
        }
        if tree.children.len() > 1 {
            lemma_child(tree, 1);
        }
    }
    match tree.rule {
        Rule::Ident => Ok(Expression::Variable(tree.text.clone())),
        Rule::Integer => match parse_integer(tree.text.as_str()) {
            Some(i) => Ok(Expression::Value(Value::Integer(i))),
            None => Err(literal(tree, "i32")),
        },
        Rule::Float => match tree.number {
            Some(number) => Ok(Expression::Value(Value::Float(number))),
            None => Err(literal(tree, "f32")),
        },
        Rule::String => match unquote(tree.text.as_str()) {
            Some(inner) => Ok(Expression::Value(Value::String(inner))),
            None => Err(Error::ParserError(ParserError::NotAnExpression(tree.text.clone()))),
        },
        Rule::Verdadeiro => Ok(Expression::Value(Value::Bool(true))),
        Rule::Falso => Ok(Expression::Value(Value::Bool(false))),
        Rule::SumExpr | Rule::SubtractionExpr | Rule::MultiplyExpr | Rule::DivideExpr => {
            if tree.children.len() < 1 {
                Err(incomplete(tree, "left"))
            } else if tree.children.len() < 2 {
                Err(incomplete(tree, "right"))
            } else {
                match build_operands(tree, 1) {
                    Err(error) => Err(error),
                    Ok((l, r)) => Ok(arithmetic_of(tree.rule.as_arithmetic().unwrap(), l, r)),
                }
            }
        },
        Rule::CompExpr => {
            if tree.children.len() < 1 {
                Err(incomplete(tree, "left"))
            } else if tree.children.len() < 2 {
                Err(incomplete(tree, "operator"))
            } else if tree.children.len() < 3 {
                Err(incomplete(tree, "right"))
            } else {
                match build_operands(tree, 2) {
                    Err(error) => Err(error),
                    Ok((l, r)) => match tree.children[1].rule.as_comparison() {
                        Some(op) => Ok(comparison_of(op, l, r)),
                        None => Err(
                            Error::ParserError(
                                ParserError::UnsupportedOperator(tree.children[1].text.clone()),
                            ),
                        ),
                    },
                }
            }
        },
        Rule::FunctionCall => {
            if tree.children.len() < 1 {
                Err(no_identifier(tree))
            } else {
                match build_arguments(tree) {
                    Err(error) => Err(error),
                    Ok(args) => Ok(Expression::FnCall(tree.children[0].text.clone(), args)),
                }
            }
        },
        Rule::EntradaNumero => Ok(Expression::Entrada(InputType::Number)),
        Rule::EntradaTexto => Ok(Expression::Entrada(InputType::String)),
        _ => Err(Error::ParserError(ParserError::NotAnExpression(tree.text.clone()))),
    }
}

fn build_otherwise(tree: &ParseTree, at: usize) -> (r: Result<Option<Vec<Box<AstNode>>>, Error>)
    ensures
        otherwise_result(r) == tree@.otherwise(at as int),
    decreases tree, 1nat,
{
    if at < tree.children.len() {
        proof {
            lemma_child(tree, at as int);
        }
        match build_block_at(&tree.children[at], 0) {
            Err(error) => Err(error),
            Ok(block) => Ok(Some(block)),
        }
    } else {
        Ok(None)
    }
}

/// The statement that `tree` stands for.
pub fn build_ast_from_expr(tree: &ParseTree) -> (r: Result<AstNode, Error>)
    ensures
        result_view(r) == tree@.statement(),
    decreases tree, 2nat,
{
    proof {
        if tree.children.len() > 0 {
            lemma_child(tree, 0);
        }
        if tree.children.len() > 1 {
            lemma_child(tree, 1);
        }
    }
    match tree.rule {
        Rule::Line => {
            if tree.children.len() < 1 {
                Err(not_ast(tree))
            } else {
                build_ast_from_expr(&tree.children[0])
            }
        },
        Rule::Se => {
            let comp = match build_part(tree, 0) {
                Ok(comp) => comp,
                Err(error) => {
                    return Err(error);
                },
            };
            let block = match build_block_at(tree, 1) {
                Ok(block) => block,
                Err(error) => {
                    return Err(error);
                },
            };
            match build_otherwise(tree, 2) {
                Ok(senao) => Ok(AstNode::If { comp, block, senao }),
                Err(error) => Err(error),
            }
        },
        Rule::Enquanto => {
            let comp = match build_part(tree, 0) {
                Ok(comp) => comp,
                Err(error) => {
                    return Err(error);
                },
            };
            match build_block_at(tree, 1) {
                Ok(block) => Ok(AstNode::While { comp, block }),
                Err(error) => Err(error),
            }
        },
        Rule::DefineVariable => match build_part(tree, 1) {
            Ok(expr) => Ok(AstNode::Definition { ident: tree.children[0].text.clone(), expr }),
            Err(error) => Err(error),
        },
        Rule::AssignVariable => match build_part(tree, 1) {
            Ok(expr) => Ok(AstNode::Assign { ident: tree.children[0].text.clone(), expr }),
            Err(error) => Err(error),
        },
        Rule::Mostre => match build_exprs(&tree.children) {
            Ok(exprs) => Ok(AstNode::Print(exprs)),
            Err(error) => Err(error),
        },
        Rule::Function => {
            if tree.children.len() >= 2 && tree.children[1].rule == Rule::FunctionSignature {
                match build_block_at(tree, 2) {
                    Ok(block) => Ok(
                        AstNode::Function {
                            ident: tree.children[0].text.clone(),
                            args: texts_of(&tree.children[1].children),
                            block,
                        },
                    ),
                    Err(error) => Err(error),
                }
            } else {
                match build_block_at(tree, 1) {
                    Ok(block) => {
                        let args: Vec<String> = Vec::new();
                        assert(names_view(args@) =~= Seq::empty());
                        Ok(AstNode::Function { ident: tree.children[0].text.clone(), args, block })
                    },
                    Err(error) => Err(error),
                }
            }
        },
        Rule::FunctionCall => {
            if tree.children.len() < 1 {
                Err(no_identifier(tree))
            } else {
                match build_arguments(tree) {
                    Err(error) => Err(error),
                    Ok(vars) => Ok(AstNode::FnCall { ident: tree.children[0].text.clone(), vars }),
                }
            }
        },
        Rule::Retorne => match build_part(tree, 0) {
            Ok(expr) => Ok(AstNode::Return(expr)),
            Err(error) => Err(error),
        },
        _ => Err(not_ast(tree)),
    }
}

/// The program that `tree` stands for: the statements of the lines among
/// its children.
pub fn build_program(tree: &ParseTree) -> (r: Result<Vec<Box<AstNode>>, Error>)
    ensures
        block_result(r) == tree@.program(),
{
    let ghost all = tree@.children;
    let mut block: Vec<Box<AstNode>> = Vec::new();
    let mut i: usize = 0;
    assert(all.take(0) =~= Seq::empty());
    assert(block_view(block@) =~= Seq::empty());
    while i < tree.children.len()
        invariant
            i <= tree.children.len(),
            all == trees_view(tree.children@),
            lines(all.take(i as int)) == Ok::<Seq<NodeView>, ErrorView>(block_view(block@)),
        decreases tree.children.len() - i,
    {
        let ghost before = block@;
        assert(all.take(i + 1).drop_last() =~= all.take(i as int));
        if tree.children[i].rule == Rule::Line {
            match build_ast_from_expr(&tree.children[i]) {
                Ok(node) => {
                    block.push(Box::new(node));
                    assert(block_view(block@) =~= block_view(before).push(node@));
                },
                Err(error) => {
                    proof {
                        lemma_lines_fail_early(all, i + 1);
                    }
                    return Err(error);
                },
            }
        }
        i += 1;
    }
    assert(all.take(i as int) =~= all);
    Ok(block)
}

} // verus!
