//! Whole programs, run by a small host that prints into a string and reads
//! from a list of lines.

use ptbri::types::{Arithmetic, Operand};
use ptbri::{
    run, AstNode, Control, Error, EvalParams, Expression, Float, InputType, Interpreter,
    InterpreterError, Reply, Request, TypeError, Value,
};

fn number(operand: &Operand) -> f32 {
    match operand {
        Operand::Integer(i) => *i as f32,
        Operand::Float(f) => f32::from_bits(f.bits),
    }
}

fn compute(op: &Arithmetic, left: &Operand, right: &Operand) -> Float {
    let (x, y) = (number(left), number(right));
    let z = match op {
        Arithmetic::Sum => x + y,
        Arithmetic::Sub => x - y,
        Arithmetic::Mult => x * y,
        Arithmetic::Div => x / y,
    };
    Float { bits: z.to_bits() }
}

/// Runs `program` to its end and gives the interpreter back, with what the
/// program printed.
fn drive(program: Vec<Box<AstNode>>, input: &[&str], limit: usize, budget: usize) -> (String, Interpreter) {
    let mut params = EvalParams::new();
    params.set_recursion_limit(limit);
    let mut interpreter = Interpreter::new(params, program);
    let mut output = String::new();
    let mut lines = input.iter();
    let mut reply = Reply::Nothing;
    loop {
        run(&mut interpreter, reply, budget);
        reply = match interpreter.control() {
            Control::Done(_) => return (output, interpreter),
            Control::Ask(Request::Print(line)) => {
                output.push_str(line);
                output.push('\n');
                Reply::Nothing
            }
            Control::Ask(Request::Read(_)) => Reply::Line(lines.next().map(|l| l.to_string())),
            Control::Ask(Request::ParseFloat(text)) => {
                Reply::Parsed(text.parse::<f32>().ok().map(|x| Float { bits: x.to_bits() }))
            }
            Control::Ask(Request::FloatArith(op, left, right)) => {
                Reply::Float(compute(op, left, right))
            }
            Control::Ask(Request::FormatFloat(number)) => {
                Reply::Text(format!("{}", f32::from_bits(number.bits)))
            }
            _ => Reply::Nothing,
        };
    }
}

/// What `program` prints and how it ends.
fn execute(program: Vec<Box<AstNode>>) -> (String, Result<(), Error>) {
    execute_with(program, &[], 4000)
}

fn execute_with(program: Vec<Box<AstNode>>, input: &[&str], limit: usize) -> (String, Result<(), Error>) {
    let (output, interpreter) = drive(program, input, limit, 1000);
    match interpreter.control() {
        Control::Done(result) => (output, result.clone()),
        _ => unreachable!(),
    }
}

fn var(name: &str) -> Expression {
    Expression::Variable(name.to_string())
}

fn integer(i: i32) -> Expression {
    Expression::Value(Value::Integer(i))
}

fn float(x: f32) -> Expression {
    Expression::Value(Value::Float(Float { bits: x.to_bits() }))
}

fn text(s: &str) -> Expression {
    Expression::Value(Value::String(s.to_string()))
}

fn boolean(b: bool) -> Expression {
    Expression::Value(Value::Bool(b))
}

fn sum(l: Expression, r: Expression) -> Expression {
    Expression::Sum(Box::new(l), Box::new(r))
}

fn sub(l: Expression, r: Expression) -> Expression {
    Expression::Sub(Box::new(l), Box::new(r))
}

fn mult(l: Expression, r: Expression) -> Expression {
    Expression::Mult(Box::new(l), Box::new(r))
}

fn div(l: Expression, r: Expression) -> Expression {
    Expression::Div(Box::new(l), Box::new(r))
}

fn is(l: Expression, r: Expression) -> Expression {
    Expression::Is(Box::new(l), Box::new(r))
}

fn smlr(l: Expression, r: Expression) -> Expression {
    Expression::Smlr(Box::new(l), Box::new(r))
}

fn smlr_eq(l: Expression, r: Expression) -> Expression {
    Expression::SmlrEq(Box::new(l), Box::new(r))
}

fn call(name: &str, args: Vec<Expression>) -> Expression {
    Expression::FnCall(name.to_string(), args)
}

fn define(name: &str, expr: Expression) -> Box<AstNode> {
    Box::new(AstNode::Definition { ident: name.to_string(), expr })
}

fn assign(name: &str, expr: Expression) -> Box<AstNode> {
    Box::new(AstNode::Assign { ident: name.to_string(), expr })
}

fn print(exprs: Vec<Expression>) -> Box<AstNode> {
    Box::new(AstNode::Print(exprs))
}

fn when(comp: Expression, block: Vec<Box<AstNode>>, senao: Option<Vec<Box<AstNode>>>) -> Box<AstNode> {
    Box::new(AstNode::If { comp, block, senao })
}

fn repeat(comp: Expression, block: Vec<Box<AstNode>>) -> Box<AstNode> {
    Box::new(AstNode::While { comp, block })
}

fn function(name: &str, args: &[&str], block: Vec<Box<AstNode>>) -> Box<AstNode> {
    Box::new(AstNode::Function {
        ident: name.to_string(),
        args: args.iter().map(|a| a.to_string()).collect(),
        block,
    })
}

fn call_statement(name: &str, vars: Vec<Expression>) -> Box<AstNode> {
    Box::new(AstNode::FnCall { ident: name.to_string(), vars })
}

fn give_back(expr: Expression) -> Box<AstNode> {
    Box::new(AstNode::Return(expr))
}

fn undefined_variable(name: &str) -> Result<(), Error> {
    Err(Error::InterpreterError(InterpreterError::UndefinedVariable(name.to_string())))
}

#[test]
fn arithmetic_on_two_integers() {
    let program = vec![
        define("a", integer(10)),
        define("b", integer(2)),
        print(vec![sum(var("a"), var("b"))]),
        print(vec![sub(var("a"), var("b"))]),
        print(vec![mult(var("a"), var("b"))]),
        print(vec![div(var("a"), var("b"))]),
    ];
    assert_eq!(execute(program), ("12\n8\n20\n5\n".to_string(), Ok(())));
}

#[test]
fn arithmetic_on_an_integer_and_a_number() {
    let program = vec![
        define("a", integer(10)),
        define("b", float(2.5)),
        print(vec![text("a mais b = "), sum(var("a"), var("b"))]),
        print(vec![text("a menos b = "), sub(var("a"), var("b"))]),
        print(vec![text("a vezes b = "), mult(var("a"), var("b"))]),
        print(vec![text("a dividido por b = "), div(var("a"), var("b"))]),
        print(vec![sub(var("b"), var("a"))]),
        print(vec![div(var("b"), var("a"))]),
    ];
    assert_eq!(
        execute(program),
        (
            "a mais b =  12.5\na menos b =  7.5\na vezes b =  25\na dividido por b =  4\n-7.5\n0.25\n"
                .to_string(),
            Ok(())
        )
    );
}

#[test]
fn while_loop_counts_to_ten() {
    let program = vec![
        define("i", integer(1)),
        repeat(
            smlr_eq(var("i"), integer(10)),
            vec![print(vec![var("i")]), assign("i", sum(var("i"), integer(1)))],
        ),
    ];
    assert_eq!(execute(program), ("1\n2\n3\n4\n5\n6\n7\n8\n9\n10\n".to_string(), Ok(())));
}

#[test]
fn function_returns_the_sum_of_its_arguments() {
    let program = vec![
        function("soma", &["x", "y"], vec![give_back(sum(var("x"), var("y")))]),
        print(vec![call("soma", vec![integer(2), integer(8)])]),
    ];
    assert_eq!(execute(program), ("10\n".to_string(), Ok(())));
}

#[test]
fn else_block_runs_when_the_condition_is_false() {
    let program = vec![when(
        boolean(false),
        vec![print(vec![text("a")])],
        Some(vec![print(vec![text("b")])]),
    )];
    assert_eq!(execute(program), ("b\n".to_string(), Ok(())));
}

#[test]
fn if_without_else_does_nothing_when_the_condition_is_false() {
    let program = vec![when(boolean(false), vec![print(vec![text("a")])], None), print(vec![text("c")])];
    assert_eq!(execute(program), ("c\n".to_string(), Ok(())));
}

#[test]
fn nested_function_sees_the_parameter_of_the_outer_one() {
    let program = vec![
        function(
            "externa",
            &["a"],
            vec![
                function("interna", &["b"], vec![give_back(sum(var("a"), var("b")))]),
                give_back(call("interna", vec![integer(2)])),
            ],
        ),
        print(vec![text("1 + 2:"), call("externa", vec![integer(1)])]),
    ];
    assert_eq!(execute(program), ("1 + 2: 3\n".to_string(), Ok(())));
}

#[test]
fn function_is_bound_where_it_was_declared_not_where_it_is_called() {
    // `mostra` reads `x`. It is called from a function whose own scope binds
    // another `x`, and must see the one of the scope that declares it.
    let program = vec![
        define("x", text("outer")),
        function("mostra", &[], vec![print(vec![var("x")])]),
        function("chama", &[], vec![define("x", text("inner")), call_statement("mostra", vec![])]),
        call_statement("chama", vec![]),
    ];
    assert_eq!(execute(program), ("outer\n".to_string(), Ok(())));
}

#[test]
fn variable_of_an_if_block_is_gone_after_it() {
    let program = vec![
        when(boolean(true), vec![define("x", integer(1)), print(vec![var("x")])], None),
        print(vec![var("x")]),
    ];
    assert_eq!(execute(program), ("1\n".to_string(), undefined_variable("x")));
}

#[test]
fn variable_of_a_while_body_is_gone_after_it() {
    let program = vec![
        define("again", boolean(true)),
        repeat(var("again"), vec![define("x", integer(1)), assign("again", boolean(false))]),
        print(vec![var("x")]),
    ];
    assert_eq!(execute(program), (String::new(), undefined_variable("x")));
}

#[test]
fn variable_of_a_while_body_does_not_last_to_the_next_round() {
    // In the second round `x` is not bound yet when it is read.
    let program = vec![
        define("i", integer(0)),
        repeat(
            smlr(var("i"), integer(2)),
            vec![
                when(is(var("i"), integer(1)), vec![print(vec![var("x")])], None),
                define("x", integer(7)),
                assign("i", sum(var("i"), integer(1))),
            ],
        ),
    ];
    assert_eq!(execute(program), (String::new(), undefined_variable("x")));
}

#[test]
fn variable_of_a_function_body_is_gone_after_the_call() {
    let program = vec![
        function("f", &["p"], vec![define("x", integer(1))]),
        call_statement("f", vec![integer(0)]),
        print(vec![var("x")]),
    ];
    assert_eq!(execute(program), (String::new(), undefined_variable("x")));
    let program = vec![
        function("f", &["p"], vec![define("x", integer(1))]),
        call_statement("f", vec![integer(0)]),
        print(vec![var("p")]),
    ];
    assert_eq!(execute(program), (String::new(), undefined_variable("p")));
}

#[test]
fn inner_definition_hides_the_outer_one_and_leaves_it_alone() {
    let program = vec![
        define("x", integer(1)),
        when(boolean(true), vec![define("x", integer(2)), print(vec![var("x")])], None),
        print(vec![var("x")]),
    ];
    assert_eq!(execute(program), ("2\n1\n".to_string(), Ok(())));
}

#[test]
fn assignment_changes_the_outer_variable() {
    let program = vec![
        define("x", integer(1)),
        when(boolean(true), vec![assign("x", integer(2))], None),
        print(vec![var("x")]),
    ];
    assert_eq!(execute(program), ("2\n".to_string(), Ok(())));
}

#[test]
fn assignment_changes_the_nearest_binding() {
    let program = vec![
        define("x", integer(1)),
        when(
            boolean(true),
            vec![
                define("x", integer(2)),
                when(boolean(true), vec![assign("x", integer(3))], None),
                print(vec![var("x")]),
            ],
            None,
        ),
        print(vec![var("x")]),
    ];
    assert_eq!(execute(program), ("3\n1\n".to_string(), Ok(())));
}

#[test]
fn assignment_to_an_unbound_variable_fails() {
    let program = vec![assign("x", integer(2)), print(vec![text("not reached")])];
    assert_eq!(execute(program), (String::new(), undefined_variable("x")));
}

#[test]
fn definition_in_the_same_scope_overwrites() {
    let program = vec![define("x", integer(1)), define("x", integer(2)), print(vec![var("x")])];
    assert_eq!(execute(program), ("2\n".to_string(), Ok(())));
}

#[test]
fn reading_an_unbound_variable_fails() {
    let program = vec![print(vec![var("a")])];
    let (output, result) = execute(program);
    assert_eq!(output, "");
    assert_eq!(result, undefined_variable("a"));
    assert_eq!(result.unwrap_err().message(), "Variable \"a\" not defined");
}

#[test]
fn calling_an_undeclared_function_fails() {
    let program = vec![call_statement("teste", vec![])];
    let (_, result) = execute(program);
    assert_eq!(
        result,
        Err(Error::InterpreterError(InterpreterError::UndefinedFunction("teste".to_string())))
    );
    assert_eq!(result.unwrap_err().message(), "Function \"teste\" not defined");
}

#[test]
fn one_argument_for_no_parameter_was_supplied() {
    let program = vec![function("f", &[], vec![]), call_statement("f", vec![integer(1)])];
    let (_, result) = execute(program);
    assert_eq!(
        result,
        Err(Error::InterpreterError(InterpreterError::WrongNumberOfArgs(
            "f".to_string(),
            0,
            1,
            "was".to_string()
        )))
    );
}

#[test]
fn three_arguments_for_two_parameters_were_supplied() {
    let program = vec![
        function("f", &["a", "b"], vec![]),
        print(vec![call("f", vec![integer(1), integer(2), integer(3)])]),
    ];
    let (_, result) = execute(program);
    assert_eq!(
        result,
        Err(Error::InterpreterError(InterpreterError::WrongNumberOfArgs(
            "f".to_string(),
            2,
            3,
            "were".to_string()
        )))
    );
}

#[test]
fn one_argument_for_two_parameters_was_supplied() {
    let program = vec![
        function("teste", &["a", "b"], vec![]),
        call_statement("teste", vec![integer(1)]),
    ];
    let (_, result) = execute(program);
    assert_eq!(
        result.unwrap_err().message(),
        "Function teste expected 2 arguments but 1 was supplied"
    );
}

#[test]
fn no_argument_for_one_parameter_were_supplied() {
    let program = vec![function("f", &["a"], vec![]), call_statement("f", vec![])];
    let (_, result) = execute(program);
    assert_eq!(
        result,
        Err(Error::InterpreterError(InterpreterError::WrongNumberOfArgs(
            "f".to_string(),
            1,
            0,
            "were".to_string()
        )))
    );
}

/// A program that counts in `n` how often `f` was entered, and in which
/// `f` calls itself without end.
fn endless_recursion() -> Vec<Box<AstNode>> {
    vec![
        define("n", integer(0)),
        function(
            "f",
            &[],
            vec![assign("n", sum(var("n"), integer(1))), call_statement("f", vec![])],
        ),
        call_statement("f", vec![]),
    ]
}

fn calls_entered(limit: usize) -> (Option<Value>, Result<(), Error>, usize) {
    let (_, interpreter) = drive(endless_recursion(), &[], limit, 1000);
    let result = match interpreter.control() {
        Control::Done(result) => result.clone(),
        _ => unreachable!(),
    };
    let n = interpreter.scope().get_var(&"n".to_string());
    (n, result, interpreter.scope().params().recursion())
}

#[test]
fn endless_recursion_stops_at_the_limit() {
    for limit in [0usize, 1, 2, 64, 4000] {
        let (n, result, depth) = calls_entered(limit);
        assert_eq!(
            result,
            Err(Error::InterpreterError(InterpreterError::RecursionLimit(limit)))
        );
        assert_eq!(n, Some(Value::Integer(limit as i32)));
        assert_eq!(depth, 0);
    }
}

#[test]
fn endless_recursion_reads_as_the_limit_reached() {
    let (_, result, _) = calls_entered(4000);
    assert_eq!(result.unwrap_err().message(), "Reached recursion limit of 4000");
}

#[test]
fn recursion_within_the_limit_succeeds() {
    // down(n) calls itself n times: n + 1 calls are under way at the deepest
    // point.
    let program = |n: i32| {
        vec![
            function(
                "down",
                &["k"],
                vec![
                    when(is(var("k"), integer(0)), vec![give_back(integer(0))], None),
                    give_back(call("down", vec![sub(var("k"), integer(1))])),
                ],
            ),
            print(vec![call("down", vec![integer(n)])]),
        ]
    };
    assert_eq!(execute_with(program(9), &[], 10), ("0\n".to_string(), Ok(())));
    assert_eq!(
        execute_with(program(10), &[], 10),
        (String::new(), Err(Error::InterpreterError(InterpreterError::RecursionLimit(10))))
    );
}

#[test]
fn depth_goes_back_down_after_each_call() {
    // A thousand calls one after the other, none inside another.
    let program = vec![
        function("f", &[], vec![]),
        define("i", integer(0)),
        repeat(
            smlr(var("i"), integer(1000)),
            vec![call_statement("f", vec![]), assign("i", sum(var("i"), integer(1)))],
        ),
        print(vec![var("i")]),
    ];
    assert_eq!(execute_with(program, &[], 1), ("1000\n".to_string(), Ok(())));
}

#[test]
fn function_without_return_gives_void() {
    let program = vec![
        function("f", &[], vec![define("x", integer(1))]),
        print(vec![text("["), call("f", vec![]), text("]")]),
        print(vec![sum(call("f", vec![]), integer(5))]),
    ];
    assert_eq!(execute(program), ("[  ]\n5\n".to_string(), Ok(())));
}

#[test]
fn return_leaves_nested_blocks_and_loops() {
    let program = vec![
        function(
            "first_above",
            &["limit"],
            vec![
                define("i", integer(0)),
                repeat(
                    boolean(true),
                    vec![
                        when(
                            Expression::Bigr(Box::new(var("i")), Box::new(var("limit"))),
                            vec![give_back(var("i"))],
                            None,
                        ),
                        assign("i", sum(var("i"), integer(1))),
                    ],
                ),
                print(vec![text("not reached")]),
            ],
        ),
        print(vec![call("first_above", vec![integer(3)])]),
        print(vec![call("first_above", vec![integer(5)])]),
    ];
    assert_eq!(execute(program), ("4\n6\n".to_string(), Ok(())));
}

#[test]
fn return_at_top_level_ends_the_program() {
    let program = vec![
        print(vec![text("a")]),
        when(boolean(true), vec![give_back(integer(1))], None),
        print(vec![text("b")]),
    ];
    assert_eq!(execute(program), ("a\n".to_string(), Ok(())));
}

#[test]
fn fibonacci_by_iteration() {
    let program = vec![
        define("a", integer(0)),
        define("b", integer(1)),
        define("i", integer(0)),
        repeat(
            smlr(var("i"), integer(10)),
            vec![
                define("c", sum(var("a"), var("b"))),
                assign("a", var("b")),
                assign("b", var("c")),
                assign("i", sum(var("i"), integer(1))),
            ],
        ),
        print(vec![var("a")]),
    ];
    assert_eq!(execute(program), ("55\n".to_string(), Ok(())));
}

#[test]
fn ackermann_by_recursion() {
    let program = vec![
        function(
            "ack",
            &["m", "n"],
            vec![
                when(is(var("m"), integer(0)), vec![give_back(sum(var("n"), integer(1)))], None),
                when(
                    is(var("n"), integer(0)),
                    vec![give_back(call("ack", vec![sub(var("m"), integer(1)), integer(1)]))],
                    None,
                ),
                give_back(call(
                    "ack",
                    vec![
                        sub(var("m"), integer(1)),
                        call("ack", vec![var("m"), sub(var("n"), integer(1))]),
                    ],
                )),
            ],
        ),
        print(vec![call("ack", vec![integer(3), integer(6)])]),
    ];
    assert_eq!(execute(program), ("509\n".to_string(), Ok(())));
}

#[test]
fn towers_of_hanoi_by_recursion() {
    let program = vec![
        function(
            "hanoi",
            &["n", "from", "to", "via"],
            vec![
                when(
                    is(var("n"), integer(1)),
                    vec![
                        print(vec![
                            text("move the disk 1 from"),
                            var("from"),
                            text("to"),
                            var("to"),
                        ]),
                        give_back(integer(0)),
                    ],
                    None,
                ),
                call_statement(
                    "hanoi",
                    vec![sub(var("n"), integer(1)), var("from"), var("via"), var("to")],
                ),
                print(vec![
                    text("move the disk"),
                    var("n"),
                    text("from"),
                    var("from"),
                    text("to"),
                    var("to"),
                ]),
                call_statement(
                    "hanoi",
                    vec![sub(var("n"), integer(1)), var("via"), var("to"), var("from")],
                ),
            ],
        ),
        call_statement("hanoi", vec![integer(3), text("S"), text("D"), text("A")]),
    ];
    assert_eq!(
        execute(program),
        (
            "move the disk 1 from S to D\nmove the disk 2 from S to A\nmove the disk 1 from D to A\nmove the disk 3 from S to D\nmove the disk 1 from A to S\nmove the disk 2 from A to D\nmove the disk 1 from S to D\n"
                .to_string(),
            Ok(())
        )
    );
}

#[test]
fn print_joins_its_words_with_one_space() {
    let program = vec![
        print(vec![]),
        print(vec![integer(5), integer(1)]),
        print(vec![text(" a "), boolean(true), float(1.5), Expression::Value(Value::Void), integer(-3)]),
    ];
    assert_eq!(execute(program), ("\n5 1\n a  true 1.5  -3\n".to_string(), Ok(())));
}

#[test]
fn sum_with_a_string_joins_the_texts_in_order() {
    let program = vec![
        print(vec![sum(text("x"), integer(1))]),
        print(vec![sum(integer(1), text("x"))]),
        print(vec![sum(text("x"), text("y"))]),
        print(vec![sum(text("x"), float(0.5))]),
        print(vec![sum(float(0.5), text("x"))]),
        print(vec![sum(sum(text("a"), float(2.0)), sum(float(1e10), text("b")))]),
    ];
    assert_eq!(
        execute(program),
        ("x1\n1x\nxy\nx0.5\n0.5x\na210000000000b\n".to_string(), Ok(()))
    );
}

#[test]
fn sum_with_a_truth_value_is_illegal() {
    let program = vec![print(vec![sum(integer(1), boolean(true))])];
    let (output, result) = execute(program);
    assert_eq!(output, "");
    assert_eq!(
        result,
        Err(Error::TypeError(TypeError::IllegalOperation(
            "addition".to_string(),
            "any".to_string(),
            "bool".to_string()
        )))
    );
    assert_eq!(
        result.unwrap_err().message(),
        "Cannot perform addition, between types any and bool"
    );
}

#[test]
fn integer_divided_by_zero_ends_the_run() {
    let program = vec![print(vec![text("before")]), print(vec![div(integer(1), integer(0))])];
    assert_eq!(
        execute(program),
        ("before\n".to_string(), Err(Error::InterpreterError(InterpreterError::DivideByZero)))
    );
}

#[test]
fn number_divided_by_zero_is_the_hosts_affair() {
    let program = vec![
        print(vec![div(float(1.0), integer(0))]),
        print(vec![div(integer(1), float(0.0))]),
        print(vec![div(Expression::Value(Value::Void), integer(0))]),
    ];
    assert_eq!(execute(program), ("inf\ninf\n0\n".to_string(), Ok(())));
}

#[test]
fn condition_must_be_a_truth_value() {
    let to_bool = |kind: &str| Err(Error::TypeError(TypeError::ToBoolError(kind.to_string())));
    let program = vec![when(integer(1), vec![print(vec![text("a")])], None)];
    assert_eq!(execute(program), (String::new(), to_bool("integer")));
    let program = vec![repeat(text("yes"), vec![print(vec![text("a")])])];
    assert_eq!(execute(program), (String::new(), to_bool("string")));
    let program = vec![when(Expression::Value(Value::Void), vec![], None)];
    assert_eq!(execute(program), (String::new(), to_bool("void")));
    let program = vec![when(float(1.0), vec![], None)];
    let (_, result) = execute(program);
    assert_eq!(result, to_bool("float"));
    assert_eq!(result.unwrap_err().message(), "Cannot treat float as a Bool type");
}

#[test]
fn operands_are_evaluated_left_to_right() {
    let program = vec![
        function("say", &["x"], vec![print(vec![var("x")]), give_back(var("x"))]),
        print(vec![sub(call("say", vec![integer(1)]), call("say", vec![integer(2)]))]),
        define("r", call("pair", vec![call("say", vec![integer(3)]), call("say", vec![integer(4)])])),
    ];
    let (output, result) = execute(program);
    assert_eq!(output, "1\n2\n-1\n3\n4\n");
    assert_eq!(
        result,
        Err(Error::InterpreterError(InterpreterError::UndefinedFunction("pair".to_string())))
    );
}

#[test]
fn and_and_or_take_two_truth_values() {
    let and = |l, r| Expression::And(Box::new(l), Box::new(r));
    let or = |l, r| Expression::Or(Box::new(l), Box::new(r));
    let program = vec![
        print(vec![and(boolean(true), boolean(true)), and(boolean(true), boolean(false))]),
        print(vec![or(boolean(false), boolean(false)), or(boolean(false), boolean(true))]),
        print(vec![or(boolean(true), integer(1))]),
    ];
    assert_eq!(
        execute(program),
        (
            "true false\nfalse true\n".to_string(),
            Err(Error::TypeError(TypeError::ToBoolError("integer".to_string())))
        )
    );
}

#[test]
fn input_is_trimmed_and_taken_as_asked() {
    let program = vec![
        define("name", Expression::Entrada(InputType::String)),
        define("n", Expression::Entrada(InputType::Number)),
        print(vec![sum(text("["), sum(var("name"), text("]")))]),
        print(vec![sum(var("n"), integer(1))]),
    ];
    assert_eq!(
        execute_with(program, &["  Ana Maria \t\r\n", " 2.5\n"], 64),
        ("[Ana Maria]\n3.5\n".to_string(), Ok(()))
    );
}

#[test]
fn input_that_is_no_number_fails() {
    let program = vec![define("n", Expression::Entrada(InputType::Number))];
    let (_, result) = execute_with(program, &[" dez \n"], 64);
    assert_eq!(
        result,
        Err(Error::InterpreterError(InterpreterError::ParseError(
            "dez".to_string(),
            "float".to_string()
        )))
    );
    assert_eq!(result.unwrap_err().message(), "Couldn't parse dez as a float");
}

#[test]
fn input_that_cannot_be_read_fails() {
    let program = vec![define("n", Expression::Entrada(InputType::String))];
    let (_, result) = execute_with(program, &[], 64);
    assert_eq!(result, Err(Error::InterpreterError(InterpreterError::InputError)));
    assert_eq!(result.unwrap_err().message(), "Failed to read input");
}

#[test]
fn statements_that_do_nothing() {
    let program = vec![
        Box::new(AstNode::Val(Value::Integer(1))),
        Box::new(AstNode::Expression(sum(integer(1), integer(2)))),
        print(vec![text("end")]),
    ];
    assert_eq!(execute(program), ("end\n".to_string(), Ok(())));
}

#[test]
fn bare_expression_is_evaluated() {
    let program = vec![Box::new(AstNode::Expression(var("missing")))];
    assert_eq!(execute(program), (String::new(), undefined_variable("missing")));
}

#[test]
fn redeclaring_a_function_replaces_it() {
    let program = vec![
        function("f", &[], vec![give_back(integer(1))]),
        function("f", &["x"], vec![give_back(var("x"))]),
        print(vec![call("f", vec![integer(2)])]),
    ];
    assert_eq!(execute(program), ("2\n".to_string(), Ok(())));
}

#[test]
fn parameter_named_twice_takes_the_last_argument() {
    let program = vec![
        function("f", &["x", "x"], vec![give_back(var("x"))]),
        print(vec![call("f", vec![integer(1), integer(2)])]),
    ];
    assert_eq!(execute(program), ("2\n".to_string(), Ok(())));
}

#[test]
fn the_budget_does_not_change_what_a_program_does() {
    let program = || {
        vec![
            function("soma", &["x", "y"], vec![give_back(sum(var("x"), var("y")))]),
            define("i", integer(0)),
            repeat(
                smlr(var("i"), integer(3)),
                vec![
                    print(vec![call("soma", vec![var("i"), float(0.5)])]),
                    assign("i", sum(var("i"), integer(1))),
                ],
            ),
        ]
    };
    let (expected, _) = drive(program(), &[], 64, 1000);
    assert_eq!(expected, "0.5\n1.5\n2.5\n");
    for budget in [1usize, 2, 3, 7] {
        let (output, interpreter) = drive(program(), &[], 64, budget);
        assert_eq!(output, expected);
        assert_eq!(interpreter.control(), &Control::Done(Ok(())));
    }
}

#[test]
fn a_budget_of_zero_takes_no_step() {
    let mut interpreter = Interpreter::new(EvalParams::new(), vec![print(vec![integer(1)])]);
    assert!(interpreter.busy());
    run(&mut interpreter, Reply::Nothing, 0);
    assert_eq!(interpreter.control(), &Control::Give(Value::Void));
    run(&mut interpreter, Reply::Nothing, 1);
    assert_eq!(interpreter.control(), &Control::Eval(integer(1)));
}

#[test]
fn a_reply_that_does_not_answer_is_ignored() {
    let mut interpreter = Interpreter::new(
        EvalParams::new(),
        vec![define("x", Expression::Entrada(InputType::Number)), print(vec![var("x")])],
    );
    run(&mut interpreter, Reply::Nothing, 100);
    let asked = Control::Ask(Request::Read(InputType::Number));
    assert_eq!(interpreter.control(), &asked);
    assert!(!interpreter.busy());
    run(&mut interpreter, Reply::Nothing, 100);
    assert_eq!(interpreter.control(), &asked);
    run(&mut interpreter, Reply::Text("1".to_string()), 100);
    assert_eq!(interpreter.control(), &asked);
    run(&mut interpreter, Reply::Line(Some(" 1.5 ".to_string())), 100);
    let asked = Control::Ask(Request::ParseFloat("1.5".to_string()));
    assert_eq!(interpreter.control(), &asked);
    run(&mut interpreter, Reply::Float(Float { bits: 0 }), 100);
    assert_eq!(interpreter.control(), &asked);
    run(&mut interpreter, Reply::Parsed(Some(Float { bits: 1.5f32.to_bits() })), 100);
    let asked = Control::Ask(Request::FormatFloat(Float { bits: 1.5f32.to_bits() }));
    assert_eq!(interpreter.control(), &asked);
    run(&mut interpreter, Reply::Line(None), 100);
    assert_eq!(interpreter.control(), &asked);
    run(&mut interpreter, Reply::Text("1.5".to_string()), 100);
    let asked = Control::Ask(Request::Print("1.5".to_string()));
    assert_eq!(interpreter.control(), &asked);
    run(&mut interpreter, Reply::Text("1.5".to_string()), 100);
    assert_eq!(interpreter.control(), &asked);
    run(&mut interpreter, Reply::Nothing, 100);
    assert_eq!(interpreter.control(), &Control::Done(Ok(())));
    run(&mut interpreter, Reply::Nothing, 100);
    assert_eq!(interpreter.control(), &Control::Done(Ok(())));
}

#[test]
fn the_root_scope_keeps_what_the_program_defined() {
    let program = vec![
        define("x", integer(1)),
        when(boolean(true), vec![define("y", integer(2)), assign("x", integer(3))], None),
    ];
    let (_, interpreter) = drive(program, &[], 64, 1000);
    assert_eq!(interpreter.scope().innermost(), 0);
    assert_eq!(interpreter.scope().get_var(&"x".to_string()), Some(Value::Integer(3)));
    assert_eq!(interpreter.scope().get_var(&"y".to_string()), None);
}
