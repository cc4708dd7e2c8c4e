//! Single transitions of the interpreter.

use ptbri::types::{Arithmetic, Operand};
use ptbri::{
    run, AstNode, Control, Error, EvalParams, Expression, Float, InputType, Interpreter,
    InterpreterError, Reply, Request, Value,
};

fn s(text: &str) -> String {
    text.to_string()
}

fn var(name: &str) -> Expression {
    Expression::Variable(s(name))
}

fn integer(i: i32) -> Expression {
    Expression::Value(Value::Integer(i))
}

fn float(x: f32) -> Float {
    Float { bits: x.to_bits() }
}

/// An interpreter that has run `program` as far as it goes without its
/// host.
fn after(program: Vec<Box<AstNode>>) -> Interpreter {
    let mut interpreter = Interpreter::new(EvalParams::new(), program);
    run(&mut interpreter, Reply::Nothing, 10_000);
    interpreter
}

/// An interpreter at the start of a program that never ends by itself, so
/// that its first block is under way whatever is done to it.
fn idle() -> Interpreter {
    Interpreter::new(
        EvalParams::new(),
        vec![Box::new(AstNode::While { comp: Expression::Value(Value::Bool(true)), block: vec![] })],
    )
}

fn failed(error: InterpreterError) -> Control {
    Control::Done(Err(Error::InterpreterError(error)))
}

#[test]
fn a_new_interpreter_is_about_to_begin() {
    let interpreter = Interpreter::new(EvalParams::new(), vec![]);
    assert_eq!(interpreter.control(), &Control::Give(Value::Void));
    assert!(interpreter.busy());
    assert_eq!(interpreter.scope().innermost(), 0);
    assert_eq!(interpreter.scope().params().recursion_limit(), 64);
}

#[test]
fn an_empty_program_is_over_after_two_steps() {
    let mut interpreter = Interpreter::new(EvalParams::new(), vec![]);
    interpreter.step(Reply::Nothing);
    assert_eq!(interpreter.control(), &Control::Give(Value::Void));
    interpreter.step(Reply::Nothing);
    assert_eq!(interpreter.control(), &Control::Done(Ok(())));
    assert!(!interpreter.busy());
    interpreter.step(Reply::Nothing);
    assert_eq!(interpreter.control(), &Control::Done(Ok(())));
}

#[test]
fn a_literal_is_its_value() {
    let mut interpreter = idle();
    interpreter.interpret_expr(integer(7));
    assert_eq!(interpreter.control(), &Control::Give(Value::Integer(7)));
}

#[test]
fn a_variable_is_looked_up() {
    let mut interpreter = idle();
    interpreter.interpret_expr(var("x"));
    assert_eq!(interpreter.control(), &failed(InterpreterError::UndefinedVariable(s("x"))));
    let mut interpreter = idle();
    interpreter.interpret_ast(AstNode::Definition { ident: s("x"), expr: integer(3) });
    assert_eq!(interpreter.control(), &Control::Eval(integer(3)));
    interpreter.step(Reply::Nothing);
    interpreter.step(Reply::Nothing);
    assert_eq!(interpreter.scope().get_var(&s("x")), Some(Value::Integer(3)));
    interpreter.interpret_expr(var("x"));
    assert_eq!(interpreter.control(), &Control::Give(Value::Integer(3)));
}

#[test]
fn the_left_operand_is_evaluated_first() {
    let mut interpreter = idle();
    interpreter.interpret_expr(Expression::Sub(Box::new(integer(7)), Box::new(integer(2))));
    assert_eq!(interpreter.control(), &Control::Eval(integer(7)));
    interpreter.step(Reply::Nothing);
    assert_eq!(interpreter.control(), &Control::Give(Value::Integer(7)));
    interpreter.step(Reply::Nothing);
    assert_eq!(interpreter.control(), &Control::Eval(integer(2)));
    interpreter.step(Reply::Nothing);
    assert_eq!(interpreter.control(), &Control::Give(Value::Integer(2)));
    interpreter.step(Reply::Nothing);
    assert_eq!(interpreter.control(), &Control::Give(Value::Integer(5)));
}

#[test]
fn an_input_expression_asks_for_a_line() {
    for kind in [InputType::Number, InputType::String] {
        let mut interpreter = idle();
        interpreter.interpret_expr(Expression::Entrada(kind));
        assert_eq!(interpreter.control(), &Control::Ask(Request::Read(kind)));
        assert!(!interpreter.busy());
    }
}

#[test]
fn a_number_is_asked_of_the_host() {
    let mut interpreter = idle();
    interpreter.interpret_expr(Expression::Div(
        Box::new(integer(1)),
        Box::new(Expression::Value(Value::Float(float(4.0)))),
    ));
    run(&mut interpreter, Reply::Nothing, 100);
    assert_eq!(
        interpreter.control(),
        &Control::Ask(Request::FloatArith(
            Arithmetic::Div,
            Operand::Integer(1),
            Operand::Float(float(4.0))
        ))
    );
    interpreter.step(Reply::Float(float(0.25)));
    assert_eq!(interpreter.control(), &Control::Give(Value::Float(float(0.25))));
}

#[test]
fn a_call_of_an_unknown_function_fails() {
    let mut interpreter = idle();
    interpreter.interpret_fn(s("f"), vec![]);
    assert_eq!(interpreter.control(), &failed(InterpreterError::UndefinedFunction(s("f"))));
}

#[test]
fn a_call_checks_the_number_of_arguments() {
    let declare = |interpreter: &mut Interpreter| {
        interpreter.interpret_ast(AstNode::Function {
            ident: s("f"),
            args: vec![s("a"), s("b")],
            block: vec![],
        });
        assert_eq!(interpreter.control(), &Control::Give(Value::Void));
    };
    let mut interpreter = idle();
    declare(&mut interpreter);
    interpreter.interpret_fn(s("f"), vec![Value::Integer(1)]);
    assert_eq!(
        interpreter.control(),
        &failed(InterpreterError::WrongNumberOfArgs(s("f"), 2, 1, s("was")))
    );
    let mut interpreter = idle();
    declare(&mut interpreter);
    interpreter.interpret_fn(s("f"), vec![]);
    assert_eq!(
        interpreter.control(),
        &failed(InterpreterError::WrongNumberOfArgs(s("f"), 2, 0, s("were")))
    );
    let mut interpreter = idle();
    declare(&mut interpreter);
    interpreter.interpret_fn(s("f"), vec![Value::Integer(1), Value::Integer(2), Value::Void]);
    assert_eq!(
        interpreter.control(),
        &failed(InterpreterError::WrongNumberOfArgs(s("f"), 2, 3, s("were")))
    );
}

#[test]
fn a_call_binds_its_parameters_in_a_new_scope() {
    let mut interpreter = idle();
    interpreter.interpret_ast(AstNode::Function {
        ident: s("f"),
        args: vec![s("a"), s("b")],
        block: vec![],
    });
    interpreter.interpret_fn(s("f"), vec![Value::Integer(1), Value::Bool(true)]);
    assert_eq!(interpreter.control(), &Control::Give(Value::Void));
    assert_eq!(interpreter.scope().innermost(), 1);
    assert_eq!(interpreter.scope().params().recursion(), 1);
    assert_eq!(interpreter.scope().find_var(&s("a")), Some(1));
    assert_eq!(interpreter.scope().get_var(&s("a")), Some(Value::Integer(1)));
    assert_eq!(interpreter.scope().get_var(&s("b")), Some(Value::Bool(true)));
    // The empty body ends at the next step, and the call with it.
    interpreter.step(Reply::Nothing);
    assert_eq!(interpreter.control(), &Control::Give(Value::Void));
    assert_eq!(interpreter.scope().innermost(), 0);
    assert_eq!(interpreter.scope().params().recursion(), 0);
    assert_eq!(interpreter.scope().get_var(&s("a")), None);
}

#[test]
fn a_call_beyond_the_limit_fails_and_resets_the_depth() {
    let mut params = EvalParams::new();
    params.set_recursion_limit(2);
    let mut interpreter = Interpreter::new(params, vec![]);
    interpreter.interpret_ast(AstNode::Function { ident: s("f"), args: vec![], block: vec![] });
    interpreter.interpret_fn(s("f"), vec![]);
    assert_eq!(interpreter.scope().params().recursion(), 1);
    interpreter.interpret_fn(s("f"), vec![]);
    assert_eq!(interpreter.scope().params().recursion(), 2);
    assert_eq!(interpreter.control(), &Control::Give(Value::Void));
    interpreter.interpret_fn(s("f"), vec![]);
    assert_eq!(interpreter.control(), &failed(InterpreterError::RecursionLimit(2)));
    assert_eq!(interpreter.scope().params().recursion(), 0);
}

#[test]
fn a_block_in_a_new_scope() {
    let mut interpreter = idle();
    interpreter.eval_scope(vec![Box::new(AstNode::Definition { ident: s("x"), expr: integer(1) })]);
    assert_eq!(interpreter.control(), &Control::Give(Value::Void));
    assert_eq!(interpreter.scope().innermost(), 1);
    run(&mut interpreter, Reply::Nothing, 3);
    assert_eq!(interpreter.scope().find_var(&s("x")), Some(1));
    // The block ends, and its scope with it.
    interpreter.step(Reply::Nothing);
    assert_eq!(interpreter.scope().innermost(), 0);
    assert_eq!(interpreter.scope().get_var(&s("x")), None);
}

#[test]
fn a_block_in_the_innermost_scope() {
    let mut interpreter = Interpreter::new(EvalParams::new(), vec![]);
    // The program is empty and over.
    interpreter.step(Reply::Nothing);
    interpreter.interpret_program(vec![Box::new(AstNode::Definition {
        ident: s("x"),
        expr: integer(1),
    })]);
    assert_eq!(interpreter.scope().innermost(), 0);
    run(&mut interpreter, Reply::Nothing, 100);
    assert_eq!(interpreter.control(), &Control::Done(Ok(())));
    assert_eq!(interpreter.scope().find_var(&s("x")), Some(0));
}

#[test]
fn statements_begin_with_their_expression() {
    let mut interpreter = idle();
    interpreter.interpret_ast(AstNode::Return(integer(1)));
    assert_eq!(interpreter.control(), &Control::Eval(integer(1)));
    let mut interpreter = idle();
    interpreter.interpret_ast(AstNode::Expression(integer(2)));
    assert_eq!(interpreter.control(), &Control::Eval(integer(2)));
    let mut interpreter = idle();
    interpreter.interpret_ast(AstNode::Assign { ident: s("x"), expr: integer(3) });
    assert_eq!(interpreter.control(), &Control::Eval(integer(3)));
    let mut interpreter = idle();
    interpreter.interpret_ast(AstNode::If { comp: integer(4), block: vec![], senao: None });
    assert_eq!(interpreter.control(), &Control::Eval(integer(4)));
    let mut interpreter = idle();
    interpreter.interpret_ast(AstNode::While { comp: integer(5), block: vec![] });
    assert_eq!(interpreter.control(), &Control::Eval(integer(5)));
    let mut interpreter = idle();
    interpreter.interpret_ast(AstNode::Print(vec![integer(6), integer(7)]));
    assert_eq!(interpreter.control(), &Control::Eval(integer(6)));
    let mut interpreter = idle();
    interpreter.interpret_ast(AstNode::Print(vec![]));
    assert_eq!(interpreter.control(), &Control::Ask(Request::Print(String::new())));
    let mut interpreter = idle();
    interpreter.interpret_ast(AstNode::Val(Value::Integer(8)));
    assert_eq!(interpreter.control(), &Control::Give(Value::Void));
    let mut interpreter = idle();
    interpreter.interpret_ast(AstNode::FnCall { ident: s("f"), vars: vec![integer(9)] });
    assert_eq!(interpreter.control(), &Control::Eval(integer(9)));
    let mut interpreter = idle();
    interpreter.interpret_ast(AstNode::FnCall { ident: s("f"), vars: vec![] });
    assert_eq!(interpreter.control(), &failed(InterpreterError::UndefinedFunction(s("f"))));
}

#[test]
fn a_finished_run_stays_finished() {
    let mut interpreter = after(vec![Box::new(AstNode::Expression(var("x")))]);
    let ended = failed(InterpreterError::UndefinedVariable(s("x")));
    assert_eq!(interpreter.control(), &ended);
    for reply in [
        Reply::Nothing,
        Reply::Line(None),
        Reply::Line(Some(s("1"))),
        Reply::Parsed(None),
        Reply::Float(float(1.0)),
        Reply::Text(s("1")),
    ] {
        run(&mut interpreter, reply, 10);
        assert_eq!(interpreter.control(), &ended);
    }
}

#[test]
fn scopes_and_calls_match_the_blocks_under_way() {
    // Inside f, called from within an `if` block: the root, the scope of the
    // `if`, the scope of the call and that of the `if` in it.
    let program = vec![
        Box::new(AstNode::Function {
            ident: s("f"),
            args: vec![],
            block: vec![Box::new(AstNode::If {
                comp: Expression::Value(Value::Bool(true)),
                block: vec![Box::new(AstNode::Print(vec![integer(1)]))],
                senao: None,
            })],
        }),
        Box::new(AstNode::If {
            comp: Expression::Value(Value::Bool(true)),
            block: vec![Box::new(AstNode::FnCall { ident: s("f"), vars: vec![] })],
            senao: None,
        }),
        Box::new(AstNode::Print(vec![integer(2)])),
    ];
    let mut interpreter = after(program);
    assert_eq!(interpreter.control(), &Control::Ask(Request::Print(s("1"))));
    assert_eq!(interpreter.scope().innermost(), 3);
    assert_eq!(interpreter.scope().params().recursion(), 1);
    run(&mut interpreter, Reply::Nothing, 10_000);
    assert_eq!(interpreter.control(), &Control::Ask(Request::Print(s("2"))));
    assert_eq!(interpreter.scope().innermost(), 0);
    assert_eq!(interpreter.scope().params().recursion(), 0);
}
