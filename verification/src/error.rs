//! The errors a run can end with, by layer, and the line each one reads as.

use crate::text::{append_digits, digits};
use vstd::prelude::*;
use vstd::std_specs::convert::FromSpecImpl;
use vstd::string::StringExecFns;

verus! {

/// An error of any layer.
#[derive(Debug, PartialEq)]
pub enum Error {
    InterpreterError(InterpreterError),
    TypeError(TypeError),
    ParserError(ParserError),
}

/// What the evaluator itself refuses.
#[derive(Debug, PartialEq)]
pub enum InterpreterError {
    /// No scope of the chain defines the variable.
    UndefinedVariable(String),
    /// No scope of the chain declares the function.
    UndefinedFunction(String),
    /// The text read from the input is not of the kind named second.
    ParseError(String, String),
    /// The function named first declares as many parameters as the second
    /// field says and was given as many arguments as the third says; the
    /// last field is the verb that agrees with the third.
    WrongNumberOfArgs(String, usize, usize, String),
    /// No line could be read from the input.
    InputError,
    /// A call would have nested deeper than the limit given here.
    RecursionLimit(usize),
    /// An integer was divided by the integer zero.
    DivideByZero,
}

/// What the kinds of the operands rule out.
#[derive(Debug, PartialEq)]
pub enum TypeError {
    /// The operation named first is not defined between the two kinds.
    IllegalOperation(String, String, String),
    /// A value of the kind named here stood where a truth value must.
    ToBoolError(String),
}

/// What the front end refuses in a program's text.
#[derive(Debug, PartialEq)]
pub enum ParserError {
    /// The grammar does not match; the field is the diagnostic.
    PestError(String),
    NotAnExpression(String),
    NotAST(String),
    /// The literal named first is not of the kind named second.
    ParseError(String, String),
    /// The expression named first lacks the operand named second.
    IncompleteExpr(String, String),
    /// The call named first lacks the part named second.
    IncompleteFnCall(String, String),
    UnsupportedOperator(String),
}

/// The model of an [`InterpreterError`].
pub enum InterpreterErrorView {
    UndefinedVariable(Seq<char>),
    UndefinedFunction(Seq<char>),
    ParseError(Seq<char>, Seq<char>),
    WrongNumberOfArgs(Seq<char>, usize, usize, Seq<char>),
    InputError,
    RecursionLimit(usize),
    DivideByZero,
}

/// The model of a [`TypeError`].
pub enum TypeErrorView {
    IllegalOperation(Seq<char>, Seq<char>, Seq<char>),
    ToBoolError(Seq<char>),
}

/// The model of a [`ParserError`].
pub enum ParserErrorView {
    PestError(Seq<char>),
    NotAnExpression(Seq<char>),
    NotAST(Seq<char>),
    ParseError(Seq<char>, Seq<char>),
    IncompleteExpr(Seq<char>, Seq<char>),
    IncompleteFnCall(Seq<char>, Seq<char>),
    UnsupportedOperator(Seq<char>),
}

/// The model of an [`Error`].
pub enum ErrorView {
    InterpreterError(InterpreterErrorView),
    TypeError(TypeErrorView),
    ParserError(ParserErrorView),
}

impl View for InterpreterError {
    type V = InterpreterErrorView;

    open spec fn view(&self) -> InterpreterErrorView {
        match self {
            InterpreterError::UndefinedVariable(name) => InterpreterErrorView::UndefinedVariable(
                name@,
            ),
            InterpreterError::UndefinedFunction(name) => InterpreterErrorView::UndefinedFunction(
                name@,
            ),
            InterpreterError::ParseError(text, kind) => InterpreterErrorView::ParseError(
                text@,
                kind@,
            ),
            InterpreterError::WrongNumberOfArgs(name, expected, actual, verb) =>
                InterpreterErrorView::WrongNumberOfArgs(name@, *expected, *actual, verb@),
            InterpreterError::InputError => InterpreterErrorView::InputError,
            InterpreterError::RecursionLimit(limit) => InterpreterErrorView::RecursionLimit(*limit),
            InterpreterError::DivideByZero => InterpreterErrorView::DivideByZero,
        }
    }
}

impl View for TypeError {
    type V = TypeErrorView;

    open spec fn view(&self) -> TypeErrorView {
        match self {
            TypeError::IllegalOperation(operation, left, right) => TypeErrorView::IllegalOperation(
                operation@,
                left@,
                right@,
            ),
            TypeError::ToBoolError(kind) => TypeErrorView::ToBoolError(kind@),
        }
    }
}

impl View for ParserError {
    type V = ParserErrorView;

    open spec fn view(&self) -> ParserErrorView {
        match self {
            ParserError::PestError(reason) => ParserErrorView::PestError(reason@),
            ParserError::NotAnExpression(text) => ParserErrorView::NotAnExpression(text@),
            ParserError::NotAST(text) => ParserErrorView::NotAST(text@),
            ParserError::ParseError(text, kind) => ParserErrorView::ParseError(text@, kind@),
            ParserError::IncompleteExpr(text, side) => ParserErrorView::IncompleteExpr(
                text@,
                side@,
            ),
            ParserError::IncompleteFnCall(text, part) => ParserErrorView::IncompleteFnCall(
                text@,
                part@,
            ),
            ParserError::UnsupportedOperator(text) => ParserErrorView::UnsupportedOperator(text@),
        }
    }
}

impl View for Error {
    type V = ErrorView;

    open spec fn view(&self) -> ErrorView {
        match self {
            Error::InterpreterError(e) => ErrorView::InterpreterError(e@),
            Error::TypeError(e) => ErrorView::TypeError(e@),
            Error::ParserError(e) => ErrorView::ParserError(e@),
        }
    }
}

impl Clone for InterpreterError {
    fn clone(&self) -> (r: InterpreterError)
        ensures
            r@ == self@,
    {
        match self {
            InterpreterError::UndefinedVariable(name) => InterpreterError::UndefinedVariable(
                name.clone(),
            ),
            InterpreterError::UndefinedFunction(name) => InterpreterError::UndefinedFunction(
                name.clone(),
            ),
            InterpreterError::ParseError(text, kind) => InterpreterError::ParseError(
                text.clone(),
                kind.clone(),
            ),
            InterpreterError::WrongNumberOfArgs(name, expected, actual, verb) =>
                InterpreterError::WrongNumberOfArgs(name.clone(), *expected, *actual, verb.clone()),
            InterpreterError::InputError => InterpreterError::InputError,
            InterpreterError::RecursionLimit(limit) => InterpreterError::RecursionLimit(*limit),
            InterpreterError::DivideByZero => InterpreterError::DivideByZero,
        }
    }
}

impl Clone for TypeError {
    fn clone(&self) -> (r: TypeError)
        ensures
            r@ == self@,
    {
        match self {
            TypeError::IllegalOperation(operation, left, right) => TypeError::IllegalOperation(
                operation.clone(),
                left.clone(),
                right.clone(),
            ),
            TypeError::ToBoolError(kind) => TypeError::ToBoolError(kind.clone()),
        }
    }
}

impl Clone for ParserError {
    fn clone(&self) -> (r: ParserError)
        ensures
            r@ == self@,
    {
        match self {
            ParserError::PestError(reason) => ParserError::PestError(reason.clone()),
            ParserError::NotAnExpression(text) => ParserError::NotAnExpression(text.clone()),
            ParserError::NotAST(text) => ParserError::NotAST(text.clone()),
            ParserError::ParseError(text, kind) => ParserError::ParseError(
                text.clone(),
                kind.clone(),
            ),
            ParserError::IncompleteExpr(text, side) => ParserError::IncompleteExpr(
                text.clone(),
                side.clone(),
            ),
            ParserError::IncompleteFnCall(text, part) => ParserError::IncompleteFnCall(
                text.clone(),
                part.clone(),
            ),
            ParserError::UnsupportedOperator(text) => ParserError::UnsupportedOperator(
                text.clone(),
            ),
        }
    }
}

impl Clone for Error {
    fn clone(&self) -> (r: Error)
        ensures
            r@ == self@,
    {
        match self {
            Error::InterpreterError(e) => Error::InterpreterError(e.clone()),
            Error::TypeError(e) => Error::TypeError(e.clone()),
            Error::ParserError(e) => Error::ParserError(e.clone()),
        }
    }
}

/// The model of a result: the model of what it holds, value or error.
pub open spec fn result_view<T: View>(r: Result<T, Error>) -> Result<T::V, ErrorView> {
    match r {
        Ok(value) => Ok(value@),
        Err(error) => Err(error@),
    }
}

impl From<InterpreterError> for Error {
    fn from(error: InterpreterError) -> (r: Error) {
        Error::InterpreterError(error)
    }
}

impl FromSpecImpl<InterpreterError> for Error {
    open spec fn obeys_from_spec() -> bool {
        true
    }

    open spec fn from_spec(error: InterpreterError) -> Error {
        Error::InterpreterError(error)
    }
}

impl From<TypeError> for Error {
    fn from(error: TypeError) -> (r: Error) {
        Error::TypeError(error)
    }
}

impl FromSpecImpl<TypeError> for Error {
    open spec fn obeys_from_spec() -> bool {
        true
    }

    open spec fn from_spec(error: TypeError) -> Error {
        Error::TypeError(error)
    }
}

impl From<ParserError> for Error {
    fn from(error: ParserError) -> (r: Error) {
        Error::ParserError(error)
    }
}

impl FromSpecImpl<ParserError> for Error {
    open spec fn obeys_from_spec() -> bool {
        true
    }

    open spec fn from_spec(error: ParserError) -> Error {
        Error::ParserError(error)
    }
}

impl InterpreterErrorView {
    /// The line this error reads as.
    pub open spec fn message(self) -> Seq<char> {
        match self {
            InterpreterErrorView::UndefinedVariable(name) => "Variable \""@ + name
                + "\" not defined"@,
            InterpreterErrorView::UndefinedFunction(name) => "Function \""@ + name
                + "\" not defined"@,
            InterpreterErrorView::ParseError(text, kind) => "Couldn't parse "@ + text + " as a "@
                + kind,
            InterpreterErrorView::WrongNumberOfArgs(name, expected, actual, verb) => "Function "@
                + name + " expected "@ + digits(expected as nat) + " arguments but "@ + digits(
                actual as nat,
            ) + " "@ + verb + " supplied"@,
            InterpreterErrorView::InputError => "Failed to read input"@,
            InterpreterErrorView::RecursionLimit(limit) => "Reached recursion limit of "@ + digits(
                limit as nat,
            ),
            InterpreterErrorView::DivideByZero => "attempt to divide by zero"@,
        }
    }
}

impl TypeErrorView {
    /// The line this error reads as.
    pub open spec fn message(self) -> Seq<char> {
        match self {
            TypeErrorView::IllegalOperation(operation, left, right) => "Cannot perform "@
                + operation + ", between types "@ + left + " and "@ + right,
            TypeErrorView::ToBoolError(kind) => "Cannot treat "@ + kind + " as a Bool type"@,
        }
    }
}

impl ParserErrorView {
    /// The text this error reads as.
    pub open spec fn message(self) -> Seq<char> {
        match self {
            ParserErrorView::PestError(reason) => "Parsing failed, reason:\n"@ + reason,
            ParserErrorView::NotAnExpression(text) => "Not an expression:\n"@ + text,
            ParserErrorView::NotAST(text) => "Incorrect syntax:\n"@ + text,
            ParserErrorView::ParseError(text, kind) => "Couldn't parse "@ + text + " as a "@ + kind,
            ParserErrorView::IncompleteExpr(text, side) => "Expression "@ + text + " missing "@
                + side + " value"@,
            ParserErrorView::IncompleteFnCall(text, part) => "Function call "@ + text
                + " missing "@ + part,
            ParserErrorView::UnsupportedOperator(text) => "Operator "@ + text
                + " is not supported"@,
        }
    }
}

impl ErrorView {
    /// The text this error reads as: that of the error it wraps.
    pub open spec fn message(self) -> Seq<char> {
        match self {
            ErrorView::InterpreterError(e) => e.message(),
            ErrorView::TypeError(e) => e.message(),
            ErrorView::ParserError(e) => e.message(),
        }
    }
}

impl InterpreterError {
    /// The line this error reads as.
    pub fn message(&self) -> (out: String)
        ensures
            out@ == self@.message(),
    {
        let mut out = String::new();
        match self {
            InterpreterError::UndefinedVariable(name) => {
                out.append("Variable \"");
                out.append(name.as_str());
                out.append("\" not defined");
            },
            InterpreterError::UndefinedFunction(name) => {
                out.append("Function \"");
                out.append(name.as_str());
                out.append("\" not defined");
            },
            InterpreterError::ParseError(text, kind) => {
                out.append("Couldn't parse ");
                out.append(text.as_str());
                out.append(" as a ");
                out.append(kind.as_str());
            },
            InterpreterError::WrongNumberOfArgs(name, expected, actual, verb) => {
                out.append("Function ");
                out.append(name.as_str());
                out.append(" expected ");
                append_digits(&mut out, *expected as u64);
                out.append(" arguments but ");
                append_digits(&mut out, *actual as u64);
                out.append(" ");
                out.append(verb.as_str());
                out.append(" supplied");
            },
            InterpreterError::InputError => {
                out.append("Failed to read input");
            },
            InterpreterError::RecursionLimit(limit) => {
                out.append("Reached recursion limit of ");
                append_digits(&mut out, *limit as u64);
            },
            InterpreterError::DivideByZero => {
                out.append("attempt to divide by zero");
            },
        }
        assert(out@ =~= self@.message());
        out
    }
}

impl TypeError {
    /// The line this error reads as.
    pub fn message(&self) -> (out: String)
        ensures
            out@ == self@.message(),
    {
        let mut out = String::new();
        match self {
            TypeError::IllegalOperation(operation, left, right) => {
                out.append("Cannot perform ");
                out.append(operation.as_str());
                out.append(", between types ");
                out.append(left.as_str());
                out.append(" and ");
                out.append(right.as_str());
            },
            TypeError::ToBoolError(kind) => {
                out.append("Cannot treat ");
                out.append(kind.as_str());
                out.append(" as a Bool type");
            },
        }
        assert(out@ =~= self@.message());
        out
    }
}

impl ParserError {
    /// The text this error reads as.
    pub fn message(&self) -> (out: String)
        ensures
            out@ == self@.message(),
    {
        let mut out = String::new();
        match self {
            ParserError::PestError(reason) => {
                out.append("Parsing failed, reason:\n");
                out.append(reason.as_str());
            },
            ParserError::NotAnExpression(text) => {
                out.append("Not an expression:\n");
                out.append(text.as_str());
            },
            ParserError::NotAST(text) => {
                out.append("Incorrect syntax:\n");
                out.append(text.as_str());
            },
            ParserError::ParseError(text, kind) => {
                out.append("Couldn't parse ");
                out.append(text.as_str());
                out.append(" as a ");
                out.append(kind.as_str());
            },
            ParserError::IncompleteExpr(text, side) => {
                out.append("Expression ");
                out.append(text.as_str());
                out.append(" missing ");
                out.append(side.as_str());
                out.append(" value");
            },
            ParserError::IncompleteFnCall(text, part) => {
                out.append("Function call ");
                out.append(text.as_str());
                out.append(" missing ");
                out.append(part.as_str());
            },
            ParserError::UnsupportedOperator(text) => {
                out.append("Operator ");
                out.append(text.as_str());
                out.append(" is not supported");
            },
        }
        assert(out@ =~= self@.message());
        out
    }
}

impl Error {
    /// The text this error reads as: that of the error it wraps.
    pub fn message(&self) -> (out: String)
        ensures
            out@ == self@.message(),
    {
        match self {
            Error::InterpreterError(e) => e.message(),
            Error::TypeError(e) => e.message(),
            Error::ParserError(e) => e.message(),
        }
    }
}

} // verus!
