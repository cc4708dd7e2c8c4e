//! The abstract machine: what one step of evaluation does.
//!
//! A state of the machine is a chain of scopes, a stack of frames and a
//! control. The control says what happens next: an expression is evaluated,
//! a value is handed to the frame on top of the stack, a `Return` travels
//! down the stack, the machine waits for the host, or the run is over. A
//! frame says what is done with the value that the work above it comes to.
//!
//! The machine reads no input, writes no output and computes no
//! single-precision number. Where a program needs one of these the machine
//! stops with a [`RequestView`], and goes on when it is stepped with the
//! [`ReplyView`] that answers it.

use crate::ast::{ExprView, NodeView, Operator};
use crate::error::{ErrorView, InterpreterErrorView};
use crate::scope::{FunctionView, ScopeView};
use crate::text::trim;
use crate::types::{Arithmetic, Float, InputType, Operand, OutcomeView, ValueView};
use vstd::prelude::*;

verus! {

/// What the machine asks of its host.
pub enum RequestView {
    /// Write this line to the output, and a line break after it.
    Print(Seq<char>),
    /// Read one line from the input.
    Read(InputType),
    /// Read this text as a single-precision number.
    ParseFloat(Seq<char>),
    /// Compute the single-precision result of the operator on the two
    /// operands, in this order.
    FloatArith(Arithmetic, Operand, Operand),
    /// Give the text of this number.
    FormatFloat(Float),
}

/// What the host hands to a step.
pub enum ReplyView {
    /// Nothing to hand over; after `Print`, that the line is written.
    Nothing,
    /// The line that was read, or `None` if reading failed.
    Line(Option<Seq<char>>),
    /// The number that the text stands for, or `None` if it stands for none.
    Parsed(Option<Float>),
    /// The number that was computed.
    Float(Float),
    /// The text of the number.
    Text(Seq<char>),
}

/// What the machine does next.
pub enum ControlView {
    /// Evaluate the expression.
    Eval(ExprView),
    /// Hand the value to the frame on top of the stack.
    Give(ValueView),
    /// Take the value down the stack to the nearest call, as its result.
    Unwind(ValueView),
    /// Wait for the host's answer.
    Ask(RequestView),
    /// Nothing: the run is over.
    Done(Result<(), ErrorView>),
}

/// What is done with a value once the work above is finished.
pub enum FrameView {
    /// A block under way: statement `next` is the next to run, and the
    /// block's own scope stands at `base`. What is handed to a block is
    /// dropped. A block that is the body of a call ends the call with it.
    Block { nodes: Seq<NodeView>, next: int, base: int, call: bool },
    /// The value is the left operand; the right one is still to evaluate.
    Right { op: Operator, right: ExprView },
    /// The value is the operand that `held` lacks.
    Apply { op: Operator, held: ValueView, held_is_left: bool },
    /// The value is the next argument of a call.
    Args { ident: Seq<char>, args: Seq<ExprView>, values: Seq<ValueView> },
    /// The value is the next word of a line to print: `next` words are in
    /// `line` already.
    Print { exprs: Seq<ExprView>, next: int, line: Seq<char> },
    /// The value is bound to the name in the innermost scope.
    Define { ident: Seq<char> },
    /// The value is given to the nearest binding of the name.
    Assign { ident: Seq<char> },
    /// The value decides between the two blocks.
    If { block: Seq<NodeView>, senao: Option<Seq<NodeView>> },
    /// The value decides whether the body runs once more.
    While { comp: ExprView, block: Seq<NodeView> },
    /// The body of the loop has run; the condition is evaluated anew.
    Loop { comp: ExprView, block: Seq<NodeView> },
    /// The value is returned.
    Return,
    /// The value is dropped.
    Discard,
}

/// What a state of the machine holds beside its control.
pub struct StoreView {
    pub scope: ScopeView,
    /// The frames, the one on top last.
    pub stack: Seq<FrameView>,
}

/// A state of the machine.
pub struct MachineView {
    pub store: StoreView,
    pub control: ControlView,
}

/// The parameters of a call bound to its arguments, each pair overriding
/// those before it.
pub open spec fn bound(names: Seq<Seq<char>>, values: Seq<ValueView>) -> Map<
    Seq<char>,
    ValueView,
>
    decreases names.len(),
{
    if names.len() == 0 || values.len() == 0 {
        Map::empty()
    } else {
        bound(names.drop_last(), values.drop_last()).insert(names.last(), values.last())
    }
}

/// The error of a call with the wrong number of arguments: the function's
/// name, the number of its parameters, the number of arguments, and the
/// verb that agrees with the latter.
pub open spec fn wrong_number_of_args(ident: Seq<char>, expected: nat, actual: nat) -> ErrorView {
    ErrorView::InterpreterError(
        InterpreterErrorView::WrongNumberOfArgs(
            ident,
            expected as usize,
            actual as usize,
            if actual == 1 {
                "was"@
            } else {
                "were"@
            },
        ),
    )
}

impl ControlView {
    /// Whether the next step needs nothing from the host.
    pub open spec fn busy(self) -> bool {
        self is Eval || self is Give || self is Unwind
    }
}

impl StoreView {
    /// With other scopes.
    pub open spec fn within(self, scope: ScopeView) -> StoreView {
        StoreView { scope, ..self }
    }

    /// With one frame more.
    pub open spec fn push(self, frame: FrameView) -> StoreView {
        StoreView { stack: self.stack.push(frame), ..self }
    }

    /// Without the frame on top.
    pub open spec fn pop(self) -> StoreView {
        StoreView { stack: self.stack.drop_last(), ..self }
    }

    /// The state with this store and this control.
    pub open spec fn to(self, control: ControlView) -> MachineView {
        MachineView { store: self, control }
    }

    /// The state in which `expr` is evaluated next.
    pub open spec fn eval(self, expr: ExprView) -> MachineView {
        self.to(ControlView::Eval(expr))
    }

    /// The state in which `value` is handed to the frame on top next.
    pub open spec fn give(self, value: ValueView) -> MachineView {
        self.to(ControlView::Give(value))
    }

    /// The state in which the machine waits for the answer to `request`.
    pub open spec fn ask(self, request: RequestView) -> MachineView {
        self.to(ControlView::Ask(request))
    }

    /// The run ends with this error.
    pub open spec fn fail(self, error: ErrorView) -> MachineView {
        self.to(ControlView::Done(Err(error)))
    }

    /// A block begins in the innermost scope, which becomes its own.
    pub open spec fn begin(self, block: Seq<NodeView>, call: bool) -> MachineView {
        self.push(
            FrameView::Block { nodes: block, next: 0, base: self.scope.innermost(), call },
        ).give(ValueView::Void)
    }

    /// A block begins in the innermost scope. When the block ends, the
    /// scope is closed, unless it is the root.
    pub open spec fn interpret_program(self, block: Seq<NodeView>) -> MachineView {
        self.begin(block, false)
    }

    /// A block begins in a new child of the innermost scope.
    pub open spec fn eval_scope(self, block: Seq<NodeView>) -> MachineView {
        self.within(self.scope.child()).begin(block, false)
    }

    /// The block on top of the stack, with its scope at `base`, is over.
    /// Where it was the body of a call, so is the call.
    pub open spec fn end(self, base: int, call: bool) -> StoreView {
        let closed = self.scope.leave_to(base);
        self.within(
            if call {
                closed.leave_call()
            } else {
                closed
            },
        )
    }

    /// A call of the function `ident` on `values`:
    /// - the function is the one of the first scope of the chain that
    ///   declares the name, else the run fails;
    /// - the number of values is that of its parameters, else the run
    ///   fails;
    /// - the call does not nest deeper than the limit, else the depth goes
    ///   back to zero and the run fails;
    /// - the body begins in a new scope, child of the one that declares the
    ///   function, with the parameters bound to the values.
    pub open spec fn interpret_fn(self, ident: Seq<char>, values: Seq<ValueView>) -> MachineView {
        match self.scope.resolve_function(ident) {
            None => self.fail(
                ErrorView::InterpreterError(InterpreterErrorView::UndefinedFunction(ident)),
            ),
            Some(home) => {
                let function: FunctionView = self.scope.chain[home].functions[ident];
                if values.len() != function.args.len() {
                    self.fail(wrong_number_of_args(ident, function.args.len(), values.len()))
                } else if self.scope.at_limit() {
                    self.within(self.scope.reset()).fail(
                        ErrorView::InterpreterError(
                            InterpreterErrorView::RecursionLimit(self.scope.limit),
                        ),
                    )
                } else {
                    self.within(
                        self.scope.enter_call().go_down(home, bound(function.args, values)),
                    ).begin(function.block, true)
                }
            },
        }
    }

    /// The evaluation of `expr` begins.
    pub open spec fn interpret_expr(self, expr: ExprView) -> MachineView {
        match expr {
            ExprView::Variable(name) => match self.scope.get_var(name) {
                Some(value) => self.give(value),
                None => self.fail(
                    ErrorView::InterpreterError(InterpreterErrorView::UndefinedVariable(name)),
                ),
            },
            ExprView::Value(value) => self.give(value),
            ExprView::Binary(op, left, right) => self.push(
                FrameView::Right { op, right: *right },
            ).eval(*left),
            ExprView::FnCall(ident, args) => if args.len() == 0 {
                self.interpret_fn(ident, Seq::empty())
            } else {
                self.push(FrameView::Args { ident, args, values: Seq::empty() }).eval(args[0])
            },
            ExprView::Entrada(kind) => self.ask(RequestView::Read(kind)),
        }
    }

    /// The statement `node` begins.
    pub open spec fn interpret_ast(self, node: NodeView) -> MachineView {
        match node {
            NodeView::Print(exprs) => if exprs.len() == 0 {
                self.ask(RequestView::Print(Seq::empty()))
            } else {
                self.push(FrameView::Print { exprs, next: 0, line: Seq::empty() }).eval(exprs[0])
            },
            NodeView::Val(_) => self.give(ValueView::Void),
            NodeView::Definition { ident, expr } => self.push(FrameView::Define { ident }).eval(
                expr,
            ),
            NodeView::Assign { ident, expr } => self.push(FrameView::Assign { ident }).eval(expr),
            NodeView::If { comp, block, senao } => self.push(FrameView::If { block, senao }).eval(
                comp,
            ),
            NodeView::While { comp, block } => self.push(FrameView::While { comp, block }).eval(
                comp,
            ),
            NodeView::Function { ident, args, block } => self.within(
                self.scope.declare_function(ident, FunctionView { args, block }),
            ).give(ValueView::Void),
            NodeView::FnCall { ident, vars } => self.push(FrameView::Discard).interpret_expr(
                ExprView::FnCall(ident, vars),
            ),
            NodeView::Return(expr) => self.push(FrameView::Return).eval(expr),
            NodeView::Expression(expr) => self.push(FrameView::Discard).eval(expr),
        }
    }

    /// The operator is applied to the values of its operands. An integer
    /// divided by the integer zero ends the run.
    pub open spec fn apply(self, op: Operator, left: ValueView, right: ValueView) -> MachineView {
        match op {
            Operator::Arithmetic(a) => if a is Div && left is Integer && right
                == ValueView::Integer(0) {
                self.fail(ErrorView::InterpreterError(InterpreterErrorView::DivideByZero))
            } else {
                match ValueView::arithmetic(a, left, right) {
                    Ok(OutcomeView::Value(value)) => self.give(value),
                    Ok(OutcomeView::Float(o, x, y)) => self.ask(RequestView::FloatArith(o, x, y)),
                    Ok(OutcomeView::Format { number, text, number_first }) => self.push(
                        FrameView::Apply {
                            op,
                            held: ValueView::String(text),
                            held_is_left: !number_first,
                        },
                    ).ask(RequestView::FormatFloat(number)),
                    Err(error) => self.fail(error),
                }
            },
            Operator::Comparison(c) => self.give(
                ValueView::Bool(ValueView::compare(c, left, right)),
            ),
            Operator::Logic(l) => match ValueView::logic(l, left, right) {
                Ok(b) => self.give(ValueView::Bool(b)),
                Err(error) => self.fail(error),
            },
        }
    }

    /// The value decides whether `block` runs, or `other` if there is one.
    pub open spec fn choose_block(
        self,
        value: ValueView,
        block: Seq<NodeView>,
        other: Option<Seq<NodeView>>,
    ) -> MachineView {
        match value {
            ValueView::Bool(true) => self.eval_scope(block),
            ValueView::Bool(false) => match other {
                Some(b) => self.eval_scope(b),
                None => self.give(ValueView::Void),
            },
            _ => self.fail(value.not_bool()),
        }
    }

    /// `frame`, which was on top of the stack and is there no more, is
    /// handed `value`.
    pub open spec fn resume(self, frame: FrameView, value: ValueView) -> MachineView {
        match frame {
            FrameView::Block { nodes, next, base, call } => if 0 <= next < nodes.len() {
                self.push(FrameView::Block { nodes, next: next + 1, base, call }).interpret_ast(
                    nodes[next],
                )
            } else {
                self.end(base, call).give(ValueView::Void)
            },
            FrameView::Right { op, right } => self.push(
                FrameView::Apply { op, held: value, held_is_left: true },
            ).eval(right),
            FrameView::Apply { op, held, held_is_left } => if held_is_left {
                self.apply(op, held, value)
            } else {
                self.apply(op, value, held)
            },
            FrameView::Args { ident, args, values } => {
                let values = values.push(value);
                if values.len() < args.len() {
                    self.push(FrameView::Args { ident, args, values }).eval(
                        args[values.len() as int],
                    )
                } else {
                    self.interpret_fn(ident, values)
                }
            },
            FrameView::Print { exprs, next, line } => match value.text() {
                None => self.push(frame).ask(RequestView::FormatFloat(value->Float_0)),
                Some(word) => {
                    let line = if next == 0 {
                        word
                    } else {
                        line + seq![' '] + word
                    };
                    if 0 <= next + 1 < exprs.len() {
                        self.push(FrameView::Print { exprs, next: next + 1, line }).eval(
                            exprs[next + 1],
                        )
                    } else {
                        self.ask(RequestView::Print(line))
                    }
                },
            },
            FrameView::Define { ident } => self.within(self.scope.define(ident, value)).give(
                ValueView::Void,
            ),
            FrameView::Assign { ident } => match self.scope.assign(ident, value) {
                Some(scope) => self.within(scope).give(ValueView::Void),
                None => self.fail(
                    ErrorView::InterpreterError(InterpreterErrorView::UndefinedVariable(ident)),
                ),
            },
            FrameView::If { block, senao } => self.choose_block(value, block, senao),
            FrameView::While { comp, block } => match value {
                ValueView::Bool(true) => self.push(FrameView::Loop { comp, block }).eval_scope(
                    block,
                ),
                ValueView::Bool(false) => self.give(ValueView::Void),
                _ => self.fail(value.not_bool()),
            },
            FrameView::Loop { comp, block } => self.push(FrameView::While { comp, block }).eval(
                comp,
            ),
            FrameView::Return => self.to(ControlView::Unwind(value)),
            FrameView::Discard => self.give(ValueView::Void),
        }
    }

    /// A `Return` with `value` goes one frame down. It ends every block on
    /// its way and stops at the first that is the body of a call, whose
    /// result the value then is. Where the stack is empty, the run is over.
    pub open spec fn unwind(self, value: ValueView) -> MachineView {
        if self.stack.len() == 0 {
            self.to(ControlView::Done(Ok(())))
        } else {
            match self.stack.last() {
                FrameView::Block { nodes, next, base, call } => self.pop().end(base, call).to(
                    if call {
                        ControlView::Give(value)
                    } else {
                        ControlView::Unwind(value)
                    },
                ),
                _ => self.pop().to(ControlView::Unwind(value)),
            }
        }
    }

    /// The host's `reply` to `request`. A reply that does not answer the
    /// request changes nothing.
    pub open spec fn answer(self, request: RequestView, reply: ReplyView) -> MachineView {
        match (request, reply) {
            (RequestView::Print(_), ReplyView::Nothing) => self.give(ValueView::Void),
            (RequestView::Read(_), ReplyView::Line(None)) => self.fail(
                ErrorView::InterpreterError(InterpreterErrorView::InputError),
            ),
            (RequestView::Read(InputType::String), ReplyView::Line(Some(line))) => self.give(
                ValueView::String(trim(line)),
            ),
            (RequestView::Read(InputType::Number), ReplyView::Line(Some(line))) => self.ask(
                RequestView::ParseFloat(trim(line)),
            ),
            (RequestView::ParseFloat(_), ReplyView::Parsed(Some(number))) => self.give(
                ValueView::Float(number),
            ),
            (RequestView::ParseFloat(text), ReplyView::Parsed(None)) => self.fail(
                ErrorView::InterpreterError(InterpreterErrorView::ParseError(text, "float"@)),
            ),
            (RequestView::FloatArith(_, _, _), ReplyView::Float(number)) => self.give(
                ValueView::Float(number),
            ),
            (RequestView::FormatFloat(_), ReplyView::Text(text)) => self.give(
                ValueView::String(text),
            ),
            _ => self.ask(request),
        }
    }
}

impl MachineView {
    /// The scopes are well formed.
    pub open spec fn wf(self) -> bool {
        self.store.scope.wf()
    }

    /// The state at the start of a run of `program`, in a root scope with
    /// these parameters.
    pub open spec fn start(limit: usize, recursion: usize, program: Seq<NodeView>) -> MachineView {
        StoreView {
            scope: ScopeView::root(limit, recursion),
            stack: Seq::empty(),
        }.interpret_program(program)
    }

    /// One step.
    pub open spec fn step(self, reply: ReplyView) -> MachineView {
        match self.control {
            ControlView::Eval(expr) => self.store.interpret_expr(expr),
            ControlView::Give(value) => if self.store.stack.len() == 0 {
                self.store.to(ControlView::Done(Ok(())))
            } else {
                self.store.pop().resume(self.store.stack.last(), value)
            },
            ControlView::Unwind(value) => self.store.unwind(value),
            ControlView::Ask(request) => self.store.answer(request, reply),
            ControlView::Done(_) => self,
        }
    }

    /// Steps that need nothing from the host, as many as there are, but
    /// `budget` at most.
    pub open spec fn proceed(self, budget: nat) -> MachineView
        decreases budget,
    {
        if budget == 0 || !self.control.busy() {
            self
        } else {
            self.step(ReplyView::Nothing).proceed((budget - 1) as nat)
        }
    }

    /// A step with `reply`, and then steps that need nothing from the host:
    /// `budget` steps at most in all.
    pub open spec fn run(self, reply: ReplyView, budget: nat) -> MachineView {
        if budget == 0 {
            self
        } else {
            self.step(reply).proceed((budget - 1) as nat)
        }
    }
}

} // verus!
