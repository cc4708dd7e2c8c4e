//! The text of each error.

use ptbri::{Error, InterpreterError, ParserError, TypeError};

fn s(text: &str) -> String {
    text.to_string()
}

#[test]
fn interpreter_errors_read_as_lines() {
    assert_eq!(
        InterpreterError::UndefinedVariable(s("a")).message(),
        "Variable \"a\" not defined"
    );
    assert_eq!(
        InterpreterError::UndefinedFunction(s("teste")).message(),
        "Function \"teste\" not defined"
    );
    assert_eq!(
        InterpreterError::ParseError(s("dez"), s("float")).message(),
        "Couldn't parse dez as a float"
    );
    assert_eq!(
        InterpreterError::WrongNumberOfArgs(s("teste"), 2, 1, s("was")).message(),
        "Function teste expected 2 arguments but 1 was supplied"
    );
    assert_eq!(
        InterpreterError::WrongNumberOfArgs(s("f"), 0, 12, s("were")).message(),
        "Function f expected 0 arguments but 12 were supplied"
    );
    assert_eq!(InterpreterError::InputError.message(), "Failed to read input");
    assert_eq!(
        InterpreterError::RecursionLimit(4000).message(),
        "Reached recursion limit of 4000"
    );
    assert_eq!(InterpreterError::RecursionLimit(0).message(), "Reached recursion limit of 0");
    assert_eq!(
        InterpreterError::RecursionLimit(usize::MAX).message(),
        format!("Reached recursion limit of {}", usize::MAX)
    );
    assert_eq!(InterpreterError::DivideByZero.message(), "attempt to divide by zero");
}

#[test]
fn type_errors_read_as_lines() {
    assert_eq!(
        TypeError::IllegalOperation(s("addition"), s("any"), s("bool")).message(),
        "Cannot perform addition, between types any and bool"
    );
    assert_eq!(TypeError::ToBoolError(s("integer")).message(), "Cannot treat integer as a Bool type");
}

#[test]
fn parser_errors_read_as_text() {
    assert_eq!(
        ParserError::PestError(s(" --> 1:1\n  |")).message(),
        "Parsing failed, reason:\n --> 1:1\n  |"
    );
    assert_eq!(ParserError::NotAnExpression(s("x y")).message(), "Not an expression:\nx y");
    assert_eq!(ParserError::NotAST(s("x y")).message(), "Incorrect syntax:\nx y");
    assert_eq!(
        ParserError::ParseError(s("99999999999"), s("i32")).message(),
        "Couldn't parse 99999999999 as a i32"
    );
    assert_eq!(
        ParserError::IncompleteExpr(s("1 mais"), s("right")).message(),
        "Expression 1 mais missing right value"
    );
    assert_eq!(
        ParserError::IncompleteFnCall(s("()"), s("identifier")).message(),
        "Function call () missing identifier"
    );
    assert_eq!(
        ParserError::UnsupportedOperator(s("<>")).message(),
        "Operator <> is not supported"
    );
}

#[test]
fn an_error_reads_as_the_error_it_wraps() {
    assert_eq!(
        Error::InterpreterError(InterpreterError::UndefinedVariable(s("a"))).message(),
        "Variable \"a\" not defined"
    );
    assert_eq!(
        Error::TypeError(TypeError::ToBoolError(s("void"))).message(),
        "Cannot treat void as a Bool type"
    );
    assert_eq!(
        Error::ParserError(ParserError::UnsupportedOperator(s("~"))).message(),
        "Operator ~ is not supported"
    );
}

#[test]
fn an_error_of_a_layer_converts_to_an_error() {
    assert_eq!(
        Error::from(InterpreterError::InputError),
        Error::InterpreterError(InterpreterError::InputError)
    );
    assert_eq!(
        Error::from(TypeError::ToBoolError(s("void"))),
        Error::TypeError(TypeError::ToBoolError(s("void")))
    );
    assert_eq!(
        Error::from(ParserError::NotAST(s("x"))),
        Error::ParserError(ParserError::NotAST(s("x")))
    );
}
