//! The chain of scopes.

use ptbri::{AstNode, Error, EvalParams, Expression, Function, InterpreterError, Scope, Value};

fn s(text: &str) -> String {
    text.to_string()
}

#[test]
fn a_new_scope_binds_nothing() {
    let scope = Scope::new();
    assert_eq!(scope.innermost(), 0);
    assert_eq!(scope.get_var(&s("x")), None);
    assert_eq!(scope.find_var(&s("x")), None);
    assert!(scope.resolve_function(&s("f")).is_none());
    assert_eq!(scope.params().recursion(), 0);
    assert_eq!(scope.params().recursion_limit(), EvalParams::DEFAULT_RECURSION_LIMIT);
    assert_eq!(EvalParams::DEFAULT_RECURSION_LIMIT, 64);
}

#[test]
fn definition_binds_in_the_innermost_scope() {
    let mut scope = Scope::new();
    scope.define(s("x"), Value::Integer(1));
    scope.scope();
    scope.define(s("y"), Value::Integer(2));
    assert_eq!(scope.innermost(), 1);
    assert_eq!(scope.find_var(&s("x")), Some(0));
    assert_eq!(scope.find_var(&s("y")), Some(1));
    assert_eq!(scope.get_var(&s("x")), Some(Value::Integer(1)));
    assert_eq!(scope.get_var(&s("y")), Some(Value::Integer(2)));
    scope.leave();
    assert_eq!(scope.innermost(), 0);
    assert_eq!(scope.get_var(&s("x")), Some(Value::Integer(1)));
    assert_eq!(scope.get_var(&s("y")), None);
}

#[test]
fn inner_binding_hides_the_outer_one_until_its_scope_is_closed() {
    let mut scope = Scope::new();
    scope.define(s("x"), Value::Integer(1));
    scope.scope();
    scope.define(s("x"), Value::String(s("inner")));
    assert_eq!(scope.find_var(&s("x")), Some(1));
    assert_eq!(scope.get_var(&s("x")), Some(Value::String(s("inner"))));
    scope.leave();
    assert_eq!(scope.get_var(&s("x")), Some(Value::Integer(1)));
}

#[test]
fn definition_in_one_scope_overwrites() {
    let mut scope = Scope::new();
    scope.define(s("x"), Value::Integer(1));
    scope.define(s("y"), Value::Integer(5));
    scope.define(s("x"), Value::Integer(2));
    assert_eq!(scope.get_var(&s("x")), Some(Value::Integer(2)));
    assert_eq!(scope.get_var(&s("y")), Some(Value::Integer(5)));
}

#[test]
fn assignment_changes_the_first_scope_that_binds_the_name() {
    let mut scope = Scope::new();
    scope.define(s("x"), Value::Integer(1));
    scope.scope();
    scope.define(s("x"), Value::Integer(2));
    scope.scope();
    assert_eq!(scope.assign(s("x"), Value::Integer(3)), Ok(()));
    assert_eq!(scope.find_var(&s("x")), Some(1));
    assert_eq!(scope.get_var(&s("x")), Some(Value::Integer(3)));
    scope.leave();
    assert_eq!(scope.get_var(&s("x")), Some(Value::Integer(3)));
    scope.leave();
    assert_eq!(scope.get_var(&s("x")), Some(Value::Integer(1)));
}

#[test]
fn assignment_binds_nothing_new() {
    let mut scope = Scope::new();
    scope.scope();
    assert_eq!(
        scope.assign(s("x"), Value::Integer(3)),
        Err(Error::InterpreterError(InterpreterError::UndefinedVariable(s("x"))))
    );
    assert_eq!(scope.get_var(&s("x")), None);
    assert_eq!(scope.innermost(), 1);
}

#[test]
fn a_scope_sees_its_ancestors_and_not_its_siblings() {
    let mut scope = Scope::new();
    scope.define(s("root"), Value::Integer(0));
    scope.scope();
    scope.define(s("first"), Value::Integer(1));
    // A second child of the root, beside the first.
    scope.go_down(0, vec![(s("second"), Value::Integer(2))]);
    assert_eq!(scope.innermost(), 2);
    assert_eq!(scope.get_var(&s("second")), Some(Value::Integer(2)));
    assert_eq!(scope.get_var(&s("root")), Some(Value::Integer(0)));
    assert_eq!(scope.get_var(&s("first")), None);
    scope.leave();
    assert_eq!(scope.get_var(&s("first")), Some(Value::Integer(1)));
    assert_eq!(scope.get_var(&s("second")), None);
}

#[test]
fn later_pairs_override_earlier_ones() {
    let mut scope = Scope::new();
    scope.go_down(
        0,
        vec![(s("x"), Value::Integer(1)), (s("y"), Value::Integer(2)), (s("x"), Value::Integer(3))],
    );
    assert_eq!(scope.get_var(&s("x")), Some(Value::Integer(3)));
    assert_eq!(scope.get_var(&s("y")), Some(Value::Integer(2)));
}

#[test]
fn the_root_is_never_closed() {
    let mut scope = Scope::new();
    scope.define(s("x"), Value::Integer(1));
    scope.leave();
    scope.leave_to(0);
    assert_eq!(scope.innermost(), 0);
    assert_eq!(scope.get_var(&s("x")), Some(Value::Integer(1)));
}

#[test]
fn closing_to_a_depth() {
    let mut scope = Scope::new();
    scope.scope();
    scope.scope();
    scope.scope();
    scope.leave_to(7);
    assert_eq!(scope.innermost(), 3);
    scope.leave_to(2);
    assert_eq!(scope.innermost(), 1);
}

#[test]
fn functions_are_looked_up_like_variables() {
    let body = |i: i32| vec![Box::new(AstNode::Return(Expression::Value(Value::Integer(i))))];
    let mut scope = Scope::new();
    scope.declare_function(s("f"), vec![s("a")], body(1));
    scope.scope();
    scope.declare_function(s("g"), vec![], body(2));
    scope.scope();
    assert_eq!(
        scope.resolve_function(&s("f")),
        Some((0, &Function::new(vec![s("a")], body(1))))
    );
    assert_eq!(scope.resolve_function(&s("g")), Some((1, &Function::new(vec![], body(2)))));
    assert_eq!(scope.resolve_function(&s("h")), None);
    scope.declare_function(s("f"), vec![], body(3));
    assert_eq!(scope.resolve_function(&s("f")), Some((2, &Function::new(vec![], body(3)))));
    scope.declare_function(s("f"), vec![s("b")], body(4));
    assert_eq!(
        scope.resolve_function(&s("f")),
        Some((2, &Function::new(vec![s("b")], body(4))))
    );
    scope.leave();
    assert_eq!(
        scope.resolve_function(&s("f")),
        Some((0, &Function::new(vec![s("a")], body(1))))
    );
}

#[test]
fn variables_and_functions_do_not_share_names() {
    let mut scope = Scope::new();
    scope.define(s("f"), Value::Integer(1));
    assert_eq!(scope.resolve_function(&s("f")), None);
    scope.declare_function(s("g"), vec![], vec![]);
    assert_eq!(scope.get_var(&s("g")), None);
}

#[test]
fn calls_are_counted_up_to_the_limit() {
    let mut params = EvalParams::new();
    params.set_recursion_limit(2);
    assert_eq!(params.recursion_limit(), 2);
    let mut scope = params.scope();
    assert_eq!(scope.enter_call(), Ok(()));
    assert_eq!(scope.params().recursion(), 1);
    assert_eq!(scope.enter_call(), Ok(()));
    assert_eq!(scope.params().recursion(), 2);
    assert_eq!(
        scope.enter_call(),
        Err(Error::InterpreterError(InterpreterError::RecursionLimit(2)))
    );
    assert_eq!(scope.params().recursion(), 0);
    assert_eq!(scope.params().recursion_limit(), 2);
}

#[test]
fn leaving_a_call_counts_down_to_zero() {
    let mut scope = Scope::new();
    assert_eq!(scope.enter_call(), Ok(()));
    assert_eq!(scope.enter_call(), Ok(()));
    scope.leave_call();
    assert_eq!(scope.params().recursion(), 1);
    scope.leave_call();
    scope.leave_call();
    assert_eq!(scope.params().recursion(), 0);
}
