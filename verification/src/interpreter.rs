//! The interpreter: the machine of [`crate::machine`], in executable form.
//!
//! An [`Interpreter`] holds one state of the machine, and [`Interpreter::step`]
//! takes it to the next. The host runs the loop: it looks at the control,
//! does what an [`Request`] asks for, and steps the interpreter with the
//! [`Reply`].

use crate::ast::{
    block_view, clone_block, clone_names, exprs_view, names_view, AstNode, ExprView, Expression,
    NodeView, Operator,
};
use crate::error::{Error, InterpreterError};
use crate::laws::{
    lemma_eval_scope_keeps_inv, lemma_interpret_ast_keeps_inv, lemma_interpret_expr_keeps_inv,
    lemma_interpret_fn_keeps_inv, lemma_interpret_program_keeps_inv, lemma_run_keeps_inv,
    lemma_start, lemma_step_keeps_inv,
};
use crate::machine::{
    bound, ControlView, FrameView, MachineView, ReplyView, RequestView, StoreView,
};
use crate::scope::{EvalParams, Scope};
use crate::table::table_of;
use crate::text::trimmed;
use crate::types::{
    Arithmetic, Comparison, Float, InputType, Logic, Operand, Outcome, Value, ValueView,
};
use vstd::prelude::*;
use vstd::string::StringExecFns;

verus! {

/// What the interpreter asks of its host.
#[derive(Debug, PartialEq)]
pub enum Request {
    /// Write this line to the output, and a line break after it.
    Print(String),
    /// Read one line from the input.
    Read(InputType),
    /// Read this text as a single-precision number.
    ParseFloat(String),
    /// Compute the single-precision result of the operator on the two
    /// operands, in this order.
    FloatArith(Arithmetic, Operand, Operand),
    /// Give the text of this number.
    FormatFloat(Float),
}

/// What the host hands to a step.
#[derive(Debug, PartialEq)]
pub enum Reply {
    /// Nothing to hand over; after `Print`, that the line is written.
    Nothing,
    /// The line that was read, or `None` if reading failed.
    Line(Option<String>),
    /// The number that the text stands for, or `None` if it stands for none.
    Parsed(Option<Float>),
    /// The number that was computed.
    Float(Float),
    /// The text of the number.
    Text(String),
}

/// What the interpreter does next.
#[derive(Debug, PartialEq)]
pub enum Control {
    /// Evaluate the expression.
    Eval(Expression),
    /// Hand the value to the frame on top of the stack.
    Give(Value),
    /// Take the value down the stack to the nearest call, as its result.
    Unwind(Value),
    /// Wait for the host's answer.
    Ask(Request),
    /// Nothing: the run is over.
    Done(Result<(), Error>),
}

/// What is done with a value once the work above is finished.
#[derive(Debug, PartialEq)]
pub enum Frame {
    /// A block under way: statement `next` is the next to run, and the
    /// block's own scope stands at `base`. What is handed to a block is
    /// dropped. A block that is the body of a call ends the call with it.
    Block { nodes: Vec<Box<AstNode>>, next: usize, base: usize, call: bool },
    /// The value is the left operand; the right one is still to evaluate.
    Right { op: Operator, right: Expression },
    /// The value is the operand that `held` lacks.
    Apply { op: Operator, held: Value, held_is_left: bool },
    /// The value is the next argument of a call.
    Args { ident: String, args: Vec<Expression>, values: Vec<Value> },
    /// The value is the next word of a line to print: `next` words are in
    /// `line` already.
    Print { exprs: Vec<Expression>, next: usize, line: String },
    /// The value is bound to the name in the innermost scope.
    Define { ident: String },
    /// The value is given to the nearest binding of the name.
    Assign { ident: String },
    /// The value decides between the two blocks.
    If { block: Vec<Box<AstNode>>, senao: Option<Vec<Box<AstNode>>> },
    /// The value decides whether the body runs once more.
    While { comp: Expression, block: Vec<Box<AstNode>> },
    /// The body of the loop has run; the condition is evaluated anew.
    Loop { comp: Expression, block: Vec<Box<AstNode>> },
    /// The value is returned.
    Return,
    /// The value is dropped.
    Discard,
}

/// The models of the values of `s`, in order.
pub open spec fn values_view(s: Seq<Value>) -> Seq<ValueView> {
    s.map_values(|v: Value| v@)
}

impl View for Request {
    type V = RequestView;

    open spec fn view(&self) -> RequestView {
        match self {
            Request::Print(line) => RequestView::Print(line@),
            Request::Read(kind) => RequestView::Read(*kind),
            Request::ParseFloat(text) => RequestView::ParseFloat(text@),
            Request::FloatArith(op, left, right) => RequestView::FloatArith(*op, *left, *right),
            Request::FormatFloat(number) => RequestView::FormatFloat(*number),
        }
    }
}

impl View for Reply {
    type V = ReplyView;

    open spec fn view(&self) -> ReplyView {
        match self {
            Reply::Nothing => ReplyView::Nothing,
            Reply::Line(line) => ReplyView::Line(
                match line {
                    Some(text) => Some(text@),
                    None => None,
                },
            ),
            Reply::Parsed(number) => ReplyView::Parsed(*number),
            Reply::Float(number) => ReplyView::Float(*number),
            Reply::Text(text) => ReplyView::Text(text@),
        }
    }
}

impl View for Control {
    type V = ControlView;

    open spec fn view(&self) -> ControlView {
        match self {
            Control::Eval(expr) => ControlView::Eval(expr@),
            Control::Give(value) => ControlView::Give(value@),
            Control::Unwind(value) => ControlView::Unwind(value@),
            Control::Ask(request) => ControlView::Ask(request@),
            Control::Done(result) => ControlView::Done(
                match result {
                    Ok(_) => Ok(()),
                    Err(error) => Err(error@),
                },
            ),
        }
    }
}

impl View for Frame {
    type V = FrameView;

    open spec fn view(&self) -> FrameView {
        match self {
            Frame::Block { nodes, next, base, call } => FrameView::Block {
                nodes: block_view(nodes@),
                next: *next as int,
                base: *base as int,
                call: *call,
            },
            Frame::Right { op, right } => FrameView::Right { op: *op, right: right@ },
            Frame::Apply { op, held, held_is_left } => FrameView::Apply {
                op: *op,
                held: held@,
                held_is_left: *held_is_left,
            },
            Frame::Args { ident, args, values } => FrameView::Args {
                ident: ident@,
                args: exprs_view(args@),
                values: values_view(values@),
            },
            Frame::Print { exprs, next, line } => FrameView::Print {
                exprs: exprs_view(exprs@),
                next: *next as int,
                line: line@,
            },
            Frame::Define { ident } => FrameView::Define { ident: ident@ },
            Frame::Assign { ident } => FrameView::Assign { ident: ident@ },
            Frame::If { block, senao } => FrameView::If {
                block: block_view(block@),
                senao: match senao {
                    Some(other) => Some(block_view(other@)),
                    None => None,
                },
            },
            Frame::While { comp, block } => FrameView::While {
                comp: comp@,
                block: block_view(block@),
            },
            Frame::Loop { comp, block } => FrameView::Loop {
                comp: comp@,
                block: block_view(block@),
            },
            Frame::Return => FrameView::Return,
            Frame::Discard => FrameView::Discard,
        }
    }
}

/// The parameters `names` paired with the arguments `values`.
fn pair_up(names: Vec<String>, values: Vec<Value>) -> (pairs: Vec<(String, Value)>)
    requires
        names.len() == values.len(),
    ensures
        table_of(pairs@) == bound(names_view(names@), values_view(values@)),
{
    let mut pairs: Vec<(String, Value)> = Vec::new();
    let mut i: usize = 0;
    while i < names.len()
        invariant
            i <= names.len(),
            names.len() == values.len(),
            table_of(pairs@) == bound(
                names_view(names@).take(i as int),
                values_view(values@).take(i as int),
            ),
        decreases names.len() - i,
    {
        let ghost before = pairs@;
        pairs.push((names[i].clone(), values[i].clone()));
        i += 1;
        proof {
            let n = names_view(names@).take(i as int);
            let v = values_view(values@).take(i as int);
            assert(pairs@.drop_last() =~= before);
            assert(n.drop_last() =~= names_view(names@).take(i - 1));
            assert(v.drop_last() =~= values_view(values@).take(i - 1));
        }
    }
    proof {
        assert(names_view(names@).take(i as int) =~= names_view(names@));
        assert(values_view(values@).take(i as int) =~= values_view(values@));
    }
    pairs
}

/// One state of the machine.
pub struct Interpreter {
    scope: Scope,
    stack: Vec<Frame>,
    control: Control,
}

impl View for Interpreter {
    type V = MachineView;

    closed spec fn view(&self) -> MachineView {
        MachineView {
            store: StoreView { scope: self.scope@, stack: self.stack@.map_values(|f: Frame| f@) },
            control: self.control@,
        }
    }
}

impl Interpreter {
    /// An interpreter at the start of a run of `program`, in a root scope
    /// with the parameters `params`.
    pub fn new(params: EvalParams, program: Vec<Box<AstNode>>) -> (interpreter: Self)
        ensures
            interpreter@ == MachineView::start(params.limit(), params.depth(), block_view(program@)),
            params.depth() == 0 ==> interpreter@.inv(),
    {
        proof {
            lemma_start(params.limit(), block_view(program@));
        }
        let mut interpreter = Interpreter {
            scope: params.scope(),
            stack: Vec::new(),
            control: Control::Give(Value::Void),
        };
        assert(interpreter@.store.stack =~= Seq::empty());
        interpreter.interpret_program(program);
        interpreter
    }

    /// What the interpreter does next.
    pub fn control(&self) -> (control: &Control)
        ensures
            control@ == self@.control,
    {
        &self.control
    }

    /// The scopes of the run.
    pub fn scope(&self) -> (scope: &Scope)
        ensures
            scope@ == self@.store.scope,
    {
        &self.scope
    }

    /// Whether the next step needs nothing from the host.
    pub fn busy(&self) -> (busy: bool)
        ensures
            busy == self@.control.busy(),
    {
        match &self.control {
            Control::Eval(_) => true,
            Control::Give(_) => true,
            Control::Unwind(_) => true,
            _ => false,
        }
    }

    fn to(&mut self, control: Control)
        ensures
            final(self)@ == old(self)@.store.to(control@),
    {
        self.control = control;
    }

    fn give(&mut self, value: Value)
        ensures
            final(self)@ == old(self)@.store.give(value@),
    {
        self.control = Control::Give(value);
    }

    fn eval(&mut self, expr: Expression)
        ensures
            final(self)@ == old(self)@.store.eval(expr@),
    {
        self.control = Control::Eval(expr);
    }

    fn ask(&mut self, request: Request)
        ensures
            final(self)@ == old(self)@.store.ask(request@),
    {
        self.control = Control::Ask(request);
    }

    fn fail(&mut self, error: Error)
        ensures
            final(self)@ == old(self)@.store.fail(error@),
    {
        self.control = Control::Done(Err(error));
    }

    fn push(&mut self, frame: Frame)
        ensures
            final(self)@.store == old(self)@.store.push(frame@),
            final(self)@.control == old(self)@.control,
    {
        self.stack.push(frame);
        assert(self@.store.stack =~= old(self)@.store.stack.push(frame@));
    }

    fn pop(&mut self) -> (frame: Option<Frame>)
        ensures
            final(self)@.control == old(self)@.control,
            frame is None <==> old(self)@.store.stack.len() == 0,
            frame is None ==> final(self)@ == old(self)@,
            frame matches Some(f) ==> f@ == old(self)@.store.stack.last() && final(self)@.store
                == old(self)@.store.pop(),
    {
        let frame = self.stack.pop();
        assert(self@.store.stack =~= if frame is Some {
            old(self)@.store.stack.drop_last()
        } else {
            old(self)@.store.stack
        });
        frame
    }

    fn begin(&mut self, block: Vec<Box<AstNode>>, call: bool)
        ensures
            final(self)@ == old(self)@.store.begin(block_view(block@), call),
    {
        let base = self.scope.innermost();
        self.push(Frame::Block { nodes: block, next: 0, base, call });
        self.give(Value::Void);
    }

    fn end(&mut self, base: usize, call: bool)
        ensures
            final(self)@.store == old(self)@.store.end(base as int, call),
            final(self)@.control == old(self)@.control,
    {
        self.scope.leave_to(base);
        if call {
            self.scope.leave_call();
        }
    }

    /// Begins `block` in the innermost scope. When the block ends, the scope
    /// is closed, unless it is the root.
    pub fn interpret_program(&mut self, block: Vec<Box<AstNode>>)
        ensures
            final(self)@ == old(self)@.store.interpret_program(block_view(block@)),
            old(self)@.store.sound() && old(self)@.store.stack.len() == 0 ==> final(self)@.inv(),
    {
        proof {
            if self@.store.sound() && self@.store.stack.len() == 0 {
                lemma_interpret_program_keeps_inv(self@.store, block_view(block@));
            }
        }
        self.begin(block, false);
    }

    /// Begins `block` in a new child of the innermost scope.
    pub fn eval_scope(&mut self, block: Vec<Box<AstNode>>)
        ensures
            final(self)@ == old(self)@.store.eval_scope(block_view(block@)),
            old(self)@.store.sound() && old(self)@.store.stack.len() > 0 ==> final(self)@.inv(),
    {
        proof {
            if self@.store.sound() && self@.store.stack.len() > 0 {
                lemma_eval_scope_keeps_inv(self@.store, block_view(block@));
            }
        }
        self.scope.scope();
        self.begin(block, false);
    }

    /// Calls the function `ident` on `values`.
    pub fn interpret_fn(&mut self, ident: String, values: Vec<Value>)
        ensures
            final(self)@ == old(self)@.store.interpret_fn(ident@, values_view(values@)),
            old(self)@.store.sound() && old(self)@.store.stack.len() > 0 ==> final(self)@.inv(),
    {
        proof {
            if self@.store.sound() && self@.store.stack.len() > 0 {
                lemma_interpret_fn_keeps_inv(self@.store, ident@, values_view(values@));
            }
        }
        let found = match self.scope.resolve_function(&ident) {
            None => None,
            Some((home, function)) => {
                if values.len() != function.args.len() {
                    Some(Err(function.args.len()))
                } else {
                    Some(Ok((home, clone_names(&function.args), clone_block(&function.block))))
                }
            },
        };
        match found {
            None => {
                self.fail(Error::InterpreterError(InterpreterError::UndefinedFunction(ident)));
            },
            Some(Err(expected)) => {
                let verb = if values.len() == 1 {
                    "was"
                } else {
                    "were"
                };
                self.fail(
                    Error::InterpreterError(
                        InterpreterError::WrongNumberOfArgs(
                            ident,
                            expected,
                            values.len(),
                            verb.to_owned(),
                        ),
                    ),
                );
            },
            Some(Ok((home, names, block))) => {
                match self.scope.enter_call() {
                    Err(error) => {
                        self.fail(error);
                    },
                    Ok(()) => {
                        assert(names_view(names@).len() == values_view(values@).len());
                        let vars = pair_up(names, values);
                        self.scope.go_down(home, vars);
                        self.begin(block, true);
                    },
                }
            },
        }
    }

    fn binary(&mut self, op: Operator, left: Expression, right: Expression)
        ensures
            final(self)@ == old(self)@.store.push(FrameView::Right { op, right: right@ }).eval(
                left@,
            ),
    {
        self.push(Frame::Right { op, right });
        self.eval(left);
    }

    /// Begins the evaluation of `expr`.
    pub fn interpret_expr(&mut self, expr: Expression)
        ensures
            final(self)@ == old(self)@.store.interpret_expr(expr@),
            old(self)@.store.sound() && old(self)@.store.stack.len() > 0 ==> final(self)@.inv(),
    {
        proof {
            if self@.store.sound() && self@.store.stack.len() > 0 {
                lemma_interpret_expr_keeps_inv(self@.store, expr@);
            }
        }
        match expr {
            Expression::Variable(name) => match self.scope.get_var(&name) {
                Some(value) => self.give(value),
                None => self.fail(
                    Error::InterpreterError(InterpreterError::UndefinedVariable(name)),
                ),
            },
            Expression::Value(value) => self.give(value),
            Expression::Sum(l, r) => self.binary(Operator::Arithmetic(Arithmetic::Sum), *l, *r),
            Expression::Sub(l, r) => self.binary(Operator::Arithmetic(Arithmetic::Sub), *l, *r),
            Expression::Mult(l, r) => self.binary(Operator::Arithmetic(Arithmetic::Mult), *l, *r),
            Expression::Div(l, r) => self.binary(Operator::Arithmetic(Arithmetic::Div), *l, *r),
            Expression::Is(l, r) => self.binary(Operator::Comparison(Comparison::Is), *l, *r),
            Expression::IsNot(l, r) => self.binary(
                Operator::Comparison(Comparison::IsNot),
                *l,
                *r,
            ),
            Expression::Smlr(l, r) => self.binary(Operator::Comparison(Comparison::Smlr), *l, *r),
            Expression::Bigr(l, r) => self.binary(Operator::Comparison(Comparison::Bigr), *l, *r),
            Expression::SmlrEq(l, r) => self.binary(
                Operator::Comparison(Comparison::SmlrEq),
                *l,
                *r,
            ),
            Expression::BigrEq(l, r) => self.binary(
                Operator::Comparison(Comparison::BigrEq),
                *l,
                *r,
            ),
            Expression::And(l, r) => self.binary(Operator::Logic(Logic::And), *l, *r),
            Expression::Or(l, r) => self.binary(Operator::Logic(Logic::Or), *l, *r),
            Expression::FnCall(ident, args) => self.call(ident, args),
            Expression::Entrada(kind) => self.ask(Request::Read(kind)),
        }
    }

    fn call(&mut self, ident: String, args: Vec<Expression>)
        ensures
            final(self)@ == old(self)@.store.interpret_expr(
                ExprView::FnCall(ident@, exprs_view(args@)),
            ),
    {
        assert(values_view(Seq::<Value>::empty()) =~= Seq::<ValueView>::empty());
        if args.len() == 0 {
            self.interpret_fn(ident, Vec::new());
        } else {
            let first = args[0].clone();
            self.push(Frame::Args { ident, args, values: Vec::new() });
            self.eval(first);
        }
    }

    fn print(&mut self, exprs: Vec<Expression>)
        ensures
            final(self)@ == old(self)@.store.interpret_ast(NodeView::Print(exprs_view(exprs@))),
    {
        if exprs.len() == 0 {
            self.ask(Request::Print(String::new()));
        } else {
            let first = exprs[0].clone();
            self.push(Frame::Print { exprs, next: 0, line: String::new() });
            self.eval(first);
        }
    }

    /// Begins the statement `node`.
    pub fn interpret_ast(&mut self, node: AstNode)
        ensures
            final(self)@ == old(self)@.store.interpret_ast(node@),
            old(self)@.store.sound() && old(self)@.store.stack.len() > 0 ==> final(self)@.inv(),
    {
        proof {
            if self@.store.sound() && self@.store.stack.len() > 0 {
                lemma_interpret_ast_keeps_inv(self@.store, node@);
            }
        }
        match node {
            AstNode::Print(exprs) => self.print(exprs),
            AstNode::Val(_) => self.give(Value::Void),
            AstNode::Definition { ident, expr } => {
                self.push(Frame::Define { ident });
                self.eval(expr);
            },
            AstNode::Assign { ident, expr } => {
                self.push(Frame::Assign { ident });
                self.eval(expr);
            },
            AstNode::If { comp, block, senao } => {
                self.push(Frame::If { block, senao });
                self.eval(comp);
            },
            AstNode::While { comp, block } => {
                let first = comp.clone();
                self.push(Frame::While { comp, block });
                self.eval(first);
            },
            AstNode::Function { ident, args, block } => {
                self.scope.declare_function(ident, args, block);
                self.give(Value::Void);
            },
            AstNode::FnCall { ident, vars } => {
                self.push(Frame::Discard);
                self.call(ident, vars);
            },
            AstNode::Return(expr) => {
                self.push(Frame::Return);
                self.eval(expr);
            },
            AstNode::Expression(expr) => {
                self.push(Frame::Discard);
                self.eval(expr);
            },
        }
    }

    fn apply(&mut self, op: Operator, left: Value, right: Value)
        ensures
            final(self)@ == old(self)@.store.apply(op, left@, right@),
    {
        match op {
            Operator::Arithmetic(a) => {
                let by_zero = match (a, &left, &right) {
                    (Arithmetic::Div, Value::Integer(_), Value::Integer(divisor)) => *divisor == 0,
                    _ => false,
                };
                if by_zero {
                    self.fail(Error::InterpreterError(InterpreterError::DivideByZero));
                } else {
                    match left.arithmetic(a, right) {
                        Ok(Outcome::Value(value)) => self.give(value),
                        Ok(Outcome::Float(o, x, y)) => self.ask(Request::FloatArith(o, x, y)),
                        Ok(Outcome::Format { number, text, number_first }) => {
                            self.push(
                                Frame::Apply {
                                    op,
                                    held: Value::String(text),
                                    held_is_left: !number_first,
                                },
                            );
                            self.ask(Request::FormatFloat(number));
                        },
                        Err(error) => self.fail(error),
                    }
                }
            },
            Operator::Comparison(c) => {
                let result = left.compare(c, &right);
                self.give(Value::Bool(result));
            },
            Operator::Logic(l) => match left.logic(l, &right) {
                Ok(result) => self.give(Value::Bool(result)),
                Err(error) => self.fail(error),
            },
        }
    }

    fn choose_block(
        &mut self,
        value: Value,
        block: Vec<Box<AstNode>>,
        other: Option<Vec<Box<AstNode>>>,
    )
        ensures
            final(self)@ == old(self)@.store.choose_block(
                value@,
                block_view(block@),
                match other {
                    Some(b) => Some(block_view(b@)),
                    None => None,
                },
            ),
    {
        match value {
            Value::Bool(true) => self.eval_scope(block),
            Value::Bool(false) => match other {
                Some(b) => self.eval_scope(b),
                None => self.give(Value::Void),
            },
            _ => self.fail(value.not_bool()),
        }
    }

    fn resume_block(&mut self, nodes: Vec<Box<AstNode>>, next: usize, base: usize, call: bool)
        ensures
            final(self)@ == old(self)@.store.resume(
                FrameView::Block {
                    nodes: block_view(nodes@),
                    next: next as int,
                    base: base as int,
                    call,
                },
                ValueView::Void,
            ),
    {
        if next < nodes.len() {
            let node = (*nodes[next]).clone();
            self.push(Frame::Block { nodes, next: next + 1, base, call });
            self.interpret_ast(node);
        } else {
            self.end(base, call);
            self.give(Value::Void);
        }
    }

    fn resume_args(
        &mut self,
        ident: String,
        args: Vec<Expression>,
        values: Vec<Value>,
        value: Value,
    )
        ensures
            final(self)@ == old(self)@.store.resume(
                FrameView::Args {
                    ident: ident@,
                    args: exprs_view(args@),
                    values: values_view(values@),
                },
                value@,
            ),
    {
        let mut values = values;
        let ghost before = values@;
        values.push(value);
        assert(values_view(values@) =~= values_view(before).push(value@));
        if values.len() < args.len() {
            let upcoming = args[values.len()].clone();
            self.push(Frame::Args { ident, args, values });
            self.eval(upcoming);
        } else {
            self.interpret_fn(ident, values);
        }
    }

    fn resume_print(&mut self, exprs: Vec<Expression>, next: usize, line: String, value: Value)
        ensures
            final(self)@ == old(self)@.store.resume(
                FrameView::Print { exprs: exprs_view(exprs@), next: next as int, line: line@ },
                value@,
            ),
    {
        match value {
            Value::Float(number) => {
                self.push(Frame::Print { exprs, next, line });
                self.ask(Request::FormatFloat(number));
            },
            _ => {
                let word = value.text().unwrap();
                let ghost so_far = line@;
                let line = if next == 0 {
                    word
                } else {
                    let mut line = line;
                    proof {
                        reveal_strlit(" ");
                    }
                    line.append(" ");
                    line.append(word.as_str());
                    assert(line@ =~= so_far + seq![' '] + word@);
                    line
                };
                if exprs.len() > 0 && next < exprs.len() - 1 {
                    let upcoming = exprs[next + 1].clone();
                    self.push(Frame::Print { exprs, next: next + 1, line });
                    self.eval(upcoming);
                } else {
                    self.ask(Request::Print(line));
                }
            },
        }
    }

    fn resume_while(&mut self, comp: Expression, block: Vec<Box<AstNode>>, value: Value)
        ensures
            final(self)@ == old(self)@.store.resume(
                FrameView::While { comp: comp@, block: block_view(block@) },
                value@,
            ),
    {
        match value {
            Value::Bool(true) => {
                let body = clone_block(&block);
                self.push(Frame::Loop { comp, block });
                self.eval_scope(body);
            },
            Value::Bool(false) => self.give(Value::Void),
            _ => self.fail(value.not_bool()),
        }
    }

    fn resume(&mut self, frame: Frame, value: Value)
        ensures
            final(self)@ == old(self)@.store.resume(frame@, value@),
    {
        match frame {
            Frame::Block { nodes, next, base, call } => self.resume_block(nodes, next, base, call),
            Frame::Right { op, right } => {
                self.push(Frame::Apply { op, held: value, held_is_left: true });
                self.eval(right);
            },
            Frame::Apply { op, held, held_is_left } => {
                if held_is_left {
                    self.apply(op, held, value);
                } else {
                    self.apply(op, value, held);
                }
            },
            Frame::Args { ident, args, values } => self.resume_args(ident, args, values, value),
            Frame::Print { exprs, next, line } => self.resume_print(exprs, next, line, value),
            Frame::Define { ident } => {
                self.scope.define(ident, value);
                self.give(Value::Void);
            },
            Frame::Assign { ident } => {
                match self.scope.assign(ident, value) {
                    Ok(()) => self.give(Value::Void),
                    Err(error) => self.fail(error),
                }
            },
            Frame::If { block, senao } => self.choose_block(value, block, senao),
            Frame::While { comp, block } => self.resume_while(comp, block, value),
            Frame::Loop { comp, block } => {
                let again = comp.clone();
                self.push(Frame::While { comp, block });
                self.eval(again);
            },
            Frame::Return => self.to(Control::Unwind(value)),
            Frame::Discard => self.give(Value::Void),
        }
    }

    fn unwind(&mut self, value: Value)
        ensures
            final(self)@ == old(self)@.store.unwind(value@),
    {
        match self.pop() {
            None => self.to(Control::Done(Ok(()))),
            Some(Frame::Block { nodes, next, base, call }) => {
                self.end(base, call);
                if call {
                    self.give(value);
                } else {
                    self.to(Control::Unwind(value));
                }
            },
            Some(_) => {
                self.to(Control::Unwind(value));
            },
        }
    }

    fn answer(&mut self, request: Request, reply: Reply)
        ensures
            final(self)@ == old(self)@.store.answer(request@, reply@),
    {
        match (request, reply) {
            (Request::Print(_), Reply::Nothing) => self.give(Value::Void),
            (Request::Read(_), Reply::Line(None)) => self.fail(
                Error::InterpreterError(InterpreterError::InputError),
            ),
            (Request::Read(InputType::String), Reply::Line(Some(line))) => {
                self.give(Value::String(trimmed(line.as_str())));
            },
            (Request::Read(InputType::Number), Reply::Line(Some(line))) => {
                self.ask(Request::ParseFloat(trimmed(line.as_str())));
            },
            (Request::ParseFloat(_), Reply::Parsed(Some(number))) => self.give(
                Value::Float(number),
            ),
            (Request::ParseFloat(text), Reply::Parsed(None)) => self.fail(
                Error::InterpreterError(InterpreterError::ParseError(text, "float".to_owned())),
            ),
            (Request::FloatArith(_, _, _), Reply::Float(number)) => self.give(
                Value::Float(number),
            ),
            (Request::FormatFloat(_), Reply::Text(text)) => self.give(Value::String(text)),
            (request, _) => self.ask(request),
        }
    }

    /// Takes one step, with the host's `reply` to what the interpreter
    /// asked. Where it asked nothing, the reply is not looked at.
    pub fn step(&mut self, reply: Reply)
        ensures
            final(self)@ == old(self)@.step(reply@),
            old(self)@.inv() ==> final(self)@.inv(),
    {
        proof {
            if self@.inv() {
                lemma_step_keeps_inv(self@, reply@);
            }
        }
        let mut control = Control::Give(Value::Void);
        core::mem::swap(&mut self.control, &mut control);
        assert(self@.store == old(self)@.store);
        match control {
            Control::Eval(expr) => self.interpret_expr(expr),
            Control::Give(value) => {
                match self.pop() {
                    None => self.to(Control::Done(Ok(()))),
                    Some(frame) => self.resume(frame, value),
                }
            },
            Control::Unwind(value) => self.unwind(value),
            Control::Ask(request) => self.answer(request, reply),
            Control::Done(result) => self.to(Control::Done(result)),
        }
    }
}

/// Takes a step with `reply`, and then steps that need nothing from the
/// host, as many as there are, but `budget` steps at most in all.
///
/// A host runs a program by calling this in a loop. After each call it looks
/// at the control: where the interpreter asks, the host does what is asked
/// and hands the answer to the next call; where it is busy still, the budget
/// ran out, and the host calls again with [`Reply::Nothing`]; where it is
/// done, the run is over.
pub fn run(interpreter: &mut Interpreter, reply: Reply, budget: usize)
    ensures
        final(interpreter)@ == old(interpreter)@.run(reply@, budget as nat),
        old(interpreter)@.inv() ==> final(interpreter)@.inv(),
{
    proof {
        if interpreter@.inv() {
            lemma_run_keeps_inv(interpreter@, reply@, budget as nat);
        }
    }
    if budget == 0 {
        return ;
    }
    interpreter.step(reply);
    let mut left: usize = budget - 1;
    while left > 0 && interpreter.busy()
        invariant
            interpreter@.proceed(left as nat) == old(interpreter)@.run(reply@, budget as nat),
        decreases left,
    {
        interpreter.step(Reply::Nothing);
        left -= 1;
    }
}

} // verus!
