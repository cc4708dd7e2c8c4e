//! Scopes: the bindings of variables and functions, and the chain along
//! which a name is looked up.
//!
//! All scopes of a run stand in one list, the root first and the innermost
//! last. Each but the root names its parent by its place in the list, and
//! the parent stands before it. A lookup starts at the innermost scope and
//! goes from parent to parent; the first scope that binds the name decides.

use crate::ast::{block_view, names_view, AstNode, NodeView};
use crate::error::{result_view, Error, ErrorView, InterpreterError, InterpreterErrorView};
use crate::table::{table_of, Table};
use crate::types::{Value, ValueView};
use vstd::prelude::*;

verus! {

/// A function: the names of its parameters and its body.
#[derive(Debug, PartialEq)]
pub struct Function {
    pub args: Vec<String>,
    pub block: Vec<Box<AstNode>>,
}

/// The model of a [`Function`].
pub struct FunctionView {
    pub args: Seq<Seq<char>>,
    pub block: Seq<NodeView>,
}

impl View for Function {
    type V = FunctionView;

    open spec fn view(&self) -> FunctionView {
        FunctionView { args: names_view(self.args@), block: block_view(self.block@) }
    }
}

impl Function {
    /// The function with these parameters and this body.
    pub fn new(args: Vec<String>, block: Vec<Box<AstNode>>) -> (f: Self)
        ensures
            f.args == args,
            f.block == block,
    {
        Function { args, block }
    }
}

/// What holds for a whole run: how deep calls may nest, and how deep they
/// nest now.
#[derive(Debug, PartialEq)]
pub struct EvalParams {
    recursion_limit: usize,
    recursion: usize,
}

impl EvalParams {
    /// The limit a run has unless it is given another.
    pub const DEFAULT_RECURSION_LIMIT: usize = 64;

    /// The limit on the depth of calls.
    pub closed spec fn limit(self) -> usize {
        self.recursion_limit
    }

    /// The depth of calls now.
    pub closed spec fn depth(self) -> usize {
        self.recursion
    }

    /// Parameters with the default limit and no call under way.
    pub fn new() -> (params: Self)
        ensures
            params.limit() == Self::DEFAULT_RECURSION_LIMIT,
            params.depth() == 0,
    {
        EvalParams { recursion_limit: Self::DEFAULT_RECURSION_LIMIT, recursion: 0 }
    }

    /// Sets the limit on the depth of calls.
    pub fn set_recursion_limit(&mut self, limit: usize)
        ensures
            final(self).limit() == limit,
            final(self).depth() == old(self).depth(),
    {
        self.recursion_limit = limit;
    }

    /// The limit on the depth of calls.
    pub fn recursion_limit(&self) -> (limit: usize)
        ensures
            limit == self.limit(),
    {
        self.recursion_limit
    }

    /// The depth of calls now.
    pub fn recursion(&self) -> (depth: usize)
        ensures
            depth == self.depth(),
    {
        self.recursion
    }

    /// The root scope of a run with these parameters: nothing is bound in
    /// it.
    pub fn scope(self) -> (scope: Scope)
        ensures
            scope@ == ScopeView::root(self.limit(), self.depth()),
            scope@.wf(),
    {
        let scope = Scope {
            params: self,
            root: Bindings { variables: Table::new(), functions: Table::new(), parent: None },
            inner: Vec::new(),
        };
        assert(scope@.chain =~= ScopeView::root(self.limit(), self.depth()).chain);
        scope
    }
}

/// The model of one scope.
pub struct BindingsView {
    pub variables: Map<Seq<char>, ValueView>,
    pub functions: Map<Seq<char>, FunctionView>,
    /// The place of the parent in the list; none for the root.
    pub parent: Option<int>,
}

/// The model of a [`Scope`].
pub struct ScopeView {
    /// The limit on the depth of calls.
    pub limit: usize,
    /// The depth of calls now.
    pub recursion: usize,
    /// The scopes, the root first and the innermost last.
    pub chain: Seq<BindingsView>,
}

impl ScopeView {
    /// A root scope in which nothing is bound.
    pub open spec fn root(limit: usize, recursion: usize) -> ScopeView {
        ScopeView {
            limit,
            recursion,
            chain: seq![
                BindingsView { variables: Map::empty(), functions: Map::empty(), parent: None },
            ],
        }
    }

    /// There is a scope, and every parent stands before its child.
    pub open spec fn wf(self) -> bool {
        &&& self.chain.len() >= 1
        &&& forall|i: int|
            0 <= i < self.chain.len() ==> (#[trigger] self.chain[i].parent matches Some(p) ==> 0
                <= p < i)
    }

    /// The place of the innermost scope.
    pub open spec fn innermost(self) -> int {
        self.chain.len() - 1
    }

    /// The place of the first scope that binds the variable `name`, going
    /// from the scope at `from` outward.
    pub open spec fn find_from(self, from: int, name: Seq<char>) -> Option<int>
        decreases from,
    {
        if from < 0 || from >= self.chain.len() {
            None
        } else if self.chain[from].variables.contains_key(name) {
            Some(from)
        } else {
            match self.chain[from].parent {
                Some(p) => if 0 <= p < from {
                    self.find_from(p, name)
                } else {
                    None
                },
                None => None,
            }
        }
    }

    /// The place of the scope that a lookup of the variable `name` ends in.
    pub open spec fn find_var(self, name: Seq<char>) -> Option<int> {
        self.find_from(self.innermost(), name)
    }

    /// The value of the variable `name`, if any scope of the chain binds it.
    pub open spec fn get_var(self, name: Seq<char>) -> Option<ValueView> {
        match self.find_var(name) {
            Some(i) => Some(self.chain[i].variables[name]),
            None => None,
        }
    }

    /// The place of the first scope that declares the function `name`, going
    /// from the scope at `from` outward.
    pub open spec fn resolve_from(self, from: int, name: Seq<char>) -> Option<int>
        decreases from,
    {
        if from < 0 || from >= self.chain.len() {
            None
        } else if self.chain[from].functions.contains_key(name) {
            Some(from)
        } else {
            match self.chain[from].parent {
                Some(p) => if 0 <= p < from {
                    self.resolve_from(p, name)
                } else {
                    None
                },
                None => None,
            }
        }
    }

    /// The place of the scope that a lookup of the function `name` ends in.
    pub open spec fn resolve_function(self, name: Seq<char>) -> Option<int> {
        self.resolve_from(self.innermost(), name)
    }

    /// The variable bound in the scope at `at`, whatever it was there
    /// before.
    pub open spec fn bind(self, at: int, name: Seq<char>, value: ValueView) -> ScopeView {
        ScopeView {
            chain: self.chain.update(
                at,
                BindingsView {
                    variables: self.chain[at].variables.insert(name, value),
                    ..self.chain[at]
                },
            ),
            ..self
        }
    }

    /// The variable bound in the innermost scope.
    pub open spec fn define(self, name: Seq<char>, value: ValueView) -> ScopeView {
        self.bind(self.innermost(), name, value)
    }

    /// The variable given a new value in the scope that a lookup of it ends
    /// in; `None` if no scope of the chain binds it.
    pub open spec fn assign(self, name: Seq<char>, value: ValueView) -> Option<ScopeView> {
        match self.find_var(name) {
            Some(i) => Some(self.bind(i, name, value)),
            None => None,
        }
    }

    /// The function declared in the innermost scope, in place of any of
    /// that name there.
    pub open spec fn declare_function(self, name: Seq<char>, function: FunctionView) -> ScopeView {
        let at = self.innermost();
        ScopeView {
            chain: self.chain.update(
                at,
                BindingsView {
                    functions: self.chain[at].functions.insert(name, function),
                    ..self.chain[at]
                },
            ),
            ..self
        }
    }

    /// A new innermost scope with these variables and the scope at `parent`
    /// for its parent.
    pub open spec fn go_down(self, parent: int, variables: Map<Seq<char>, ValueView>) -> ScopeView {
        ScopeView {
            chain: self.chain.push(
                BindingsView { variables, functions: Map::empty(), parent: Some(parent) },
            ),
            ..self
        }
    }

    /// A new, empty innermost scope, child of the one that was innermost.
    pub open spec fn child(self) -> ScopeView {
        self.go_down(self.innermost(), Map::empty())
    }

    /// The first `depth` scopes alone; the root stays in any case.
    pub open spec fn leave_to(self, depth: int) -> ScopeView {
        let keep = if depth < 1 {
            1
        } else if depth > self.chain.len() {
            self.chain.len() as int
        } else {
            depth
        };
        ScopeView { chain: self.chain.take(keep), ..self }
    }

    /// Without the innermost scope.
    pub open spec fn leave(self) -> ScopeView {
        self.leave_to(self.chain.len() - 1)
    }

    /// Whether one more call would nest deeper than the limit.
    pub open spec fn at_limit(self) -> bool {
        self.recursion >= self.limit
    }

    /// One call deeper.
    pub open spec fn enter_call(self) -> ScopeView
        recommends
            !self.at_limit(),
    {
        ScopeView { recursion: (self.recursion + 1) as usize, ..self }
    }

    /// One call less deep.
    pub open spec fn leave_call(self) -> ScopeView {
        ScopeView {
            recursion: if self.recursion > 0 {
                (self.recursion - 1) as usize
            } else {
                0
            },
            ..self
        }
    }

    /// No call under way.
    pub open spec fn reset(self) -> ScopeView {
        ScopeView { recursion: 0, ..self }
    }
}

/// One scope: what it binds, and where its parent stands.
struct Bindings {
    variables: Table<Value>,
    functions: Table<Function>,
    parent: Option<usize>,
}

impl View for Bindings {
    type V = BindingsView;

    closed spec fn view(&self) -> BindingsView {
        BindingsView {
            variables: self.variables@,
            functions: self.functions@,
            parent: match self.parent {
                Some(p) => Some(p as int),
                None => None,
            },
        }
    }
}

/// The innermost scope of a run together with the scopes it can see, and
/// the parameters of the run.
pub struct Scope {
    params: EvalParams,
    /// The root, which is never closed.
    root: Bindings,
    /// The other scopes, the innermost last.
    inner: Vec<Bindings>,
}

impl View for Scope {
    type V = ScopeView;

    closed spec fn view(&self) -> ScopeView {
        ScopeView {
            limit: self.params.limit(),
            recursion: self.params.depth(),
            chain: seq![self.root@] + self.inner@.map_values(|b: Bindings| b@),
        }
    }
}

impl Scope {
    /// The root scope of a run with the default parameters.
    pub fn new() -> (scope: Self)
        ensures
            scope@ == ScopeView::root(EvalParams::DEFAULT_RECURSION_LIMIT, 0),
            scope@.wf(),
    {
        EvalParams::new().scope()
    }

    /// The parameters of the run.
    pub fn params(&self) -> (params: &EvalParams)
        ensures
            params.limit() == self@.limit,
            params.depth() == self@.recursion,
    {
        &self.params
    }

    /// The place of the innermost scope: 0 where the root is the only
    /// scope.
    pub fn innermost(&self) -> (place: usize)
        ensures
            place == self@.innermost(),
            self@.chain.len() >= 1,
    {
        self.inner.len()
    }

    fn at(&self, place: usize) -> (bindings: &Bindings)
        requires
            place < self@.chain.len(),
        ensures
            bindings@ == self@.chain[place as int],
    {
        if place == 0 {
            &self.root
        } else {
            &self.inner[place - 1]
        }
    }

    /// The place of the scope that a lookup of the variable `name` ends in.
    pub fn find_var(&self, name: &String) -> (r: Option<usize>)
        ensures
            r is Some <==> self@.find_var(name@) is Some,
            r matches Some(i) ==> self@.find_var(name@) == Some(i as int) && i
                < self@.chain.len() && self@.chain[i as int].variables.contains_key(name@),
    {
        let mut i: usize = self.inner.len();
        loop
            invariant
                i < self@.chain.len(),
                self@.find_from(i as int, name@) == self@.find_var(name@),
            decreases i,
        {
            let bindings = self.at(i);
            if bindings.variables.contains(name) {
                return Some(i);
            }
            match bindings.parent {
                Some(p) => {
                    if p < i {
                        i = p;
                    } else {
                        return None;
                    }
                },
                None => {
                    return None;
                },
            }
        }
    }

    /// The value of the variable `name`: that of the first scope of the
    /// chain that binds it.
    pub fn get_var(&self, name: &String) -> (r: Option<Value>)
        ensures
            r is Some <==> self@.get_var(name@) is Some,
            r matches Some(value) ==> self@.get_var(name@) == Some(value@),
    {
        match self.find_var(name) {
            Some(i) => {
                match self.at(i).variables.get(name) {
                    Some(value) => Some(value.clone()),
                    None => None,
                }
            },
            None => None,
        }
    }

    fn bind(&mut self, at: usize, name: String, value: Value)
        requires
            at < old(self)@.chain.len(),
        ensures
            final(self)@ == old(self)@.bind(at as int, name@, value@),
            old(self)@.wf() ==> final(self)@.wf(),
    {
        if at == 0 {
            self.root.variables.insert(name, value);
        } else {
            self.inner[at - 1].variables.insert(name, value);
        }
        assert(self@.chain =~= old(self)@.bind(at as int, name@, value@).chain);
    }

    /// Binds the variable `name` in the innermost scope, in place of any
    /// binding of that name there.
    pub fn define(&mut self, name: String, value: Value)
        ensures
            final(self)@ == old(self)@.define(name@, value@),
            old(self)@.wf() ==> final(self)@.wf(),
    {
        let at = self.inner.len();
        self.bind(at, name, value);
    }

    /// Gives the variable `name` a new value in the first scope of the
    /// chain that binds it. Where none does, nothing changes and the error
    /// names the variable.
    pub fn assign(&mut self, name: String, value: Value) -> (r: Result<(), Error>)
        ensures
            old(self)@.assign(name@, value@) matches Some(scope) ==> r is Ok && final(self)@
                == scope,
            old(self)@.assign(name@, value@) is None ==> final(self)@ == old(self)@
                && result_view(r) == Err::<(), ErrorView>(
                ErrorView::InterpreterError(InterpreterErrorView::UndefinedVariable(name@)),
            ),
            old(self)@.wf() ==> final(self)@.wf(),
    {
        match self.find_var(&name) {
            Some(at) => {
                self.bind(at, name, value);
                Ok(())
            },
            None => Err(Error::InterpreterError(InterpreterError::UndefinedVariable(name))),
        }
    }

    /// Declares the function `name` in the innermost scope, in place of any
    /// of that name there.
    pub fn declare_function(&mut self, name: String, args: Vec<String>, block: Vec<Box<AstNode>>)
        ensures
            final(self)@ == old(self)@.declare_function(
                name@,
                FunctionView { args: names_view(args@), block: block_view(block@) },
            ),
            old(self)@.wf() ==> final(self)@.wf(),
    {
        let function = Function::new(args, block);
        let at = self.inner.len();
        if at == 0 {
            self.root.functions.insert(name, function);
        } else {
            self.inner[at - 1].functions.insert(name, function);
        }
        assert(self@.chain =~= old(self)@.declare_function(name@, function@).chain);
    }

    /// The function `name` of the first scope of the chain that declares
    /// one, and the place of that scope.
    pub fn resolve_function(&self, name: &String) -> (r: Option<(usize, &Function)>)
        ensures
            r is Some <==> self@.resolve_function(name@) is Some,
            r matches Some((home, function)) ==> self@.resolve_function(name@) == Some(
                home as int,
            ) && home < self@.chain.len() && self@.chain[home as int].functions[name@]
                == function@,
    {
        let mut i: usize = self.inner.len();
        loop
            invariant
                i < self@.chain.len(),
                self@.resolve_from(i as int, name@) == self@.resolve_function(name@),
            decreases i,
        {
            let bindings = self.at(i);
            match bindings.functions.get(name) {
                Some(function) => {
                    return Some((i, function));
                },
                None => {},
            }
            match bindings.parent {
                Some(p) => {
                    if p < i {
                        i = p;
                    } else {
                        return None;
                    }
                },
                None => {
                    return None;
                },
            }
        }
    }

    /// Opens a new innermost scope, child of the scope at `parent`, with the
    /// variables of `vars` bound in it, each pair overriding those before
    /// it.
    pub fn go_down(&mut self, parent: usize, vars: Vec<(String, Value)>)
        requires
            parent < old(self)@.chain.len(),
        ensures
            final(self)@ == old(self)@.go_down(parent as int, table_of(vars@)),
            old(self)@.wf() ==> final(self)@.wf(),
    {
        self.inner.push(
            Bindings {
                variables: Table::from_pairs(vars),
                functions: Table::new(),
                parent: Some(parent),
            },
        );
        assert(self@.chain =~= old(self)@.go_down(parent as int, table_of(vars@)).chain);
    }

    /// Opens a new, empty innermost scope, child of the one that was
    /// innermost.
    pub fn scope(&mut self)
        ensures
            final(self)@ == old(self)@.child(),
            old(self)@.wf() ==> final(self)@.wf(),
    {
        let parent = self.inner.len();
        self.go_down(parent, Vec::new());
    }

    /// Closes every scope but the first `depth`; the root stays in any
    /// case.
    pub fn leave_to(&mut self, depth: usize)
        ensures
            final(self)@ == old(self)@.leave_to(depth as int),
            old(self)@.wf() ==> final(self)@.wf(),
    {
        if depth < 1 {
            self.inner.truncate(0);
        } else {
            self.inner.truncate(depth - 1);
        }
        assert(self@.chain =~= old(self)@.leave_to(depth as int).chain);
    }

    /// Closes the innermost scope, unless it is the root.
    pub fn leave(&mut self)
        ensures
            final(self)@ == old(self)@.leave(),
            old(self)@.wf() ==> final(self)@.wf(),
    {
        let depth = self.inner.len();
        self.leave_to(depth);
    }

    /// Counts one call more. Where that would nest calls deeper than the
    /// limit, the count goes back to zero instead and the error gives the
    /// limit.
    pub fn enter_call(&mut self) -> (r: Result<(), Error>)
        ensures
            old(self)@.at_limit() ==> final(self)@ == old(self)@.reset() && result_view(r) == Err::<
                (),
                ErrorView,
            >(ErrorView::InterpreterError(InterpreterErrorView::RecursionLimit(old(self)@.limit))),
            !old(self)@.at_limit() ==> final(self)@ == old(self)@.enter_call() && r is Ok,
            old(self)@.wf() ==> final(self)@.wf(),
    {
        if self.params.recursion >= self.params.recursion_limit {
            self.params.recursion = 0;
            Err(
                Error::InterpreterError(
                    InterpreterError::RecursionLimit(self.params.recursion_limit),
                ),
            )
        } else {
            self.params.recursion = self.params.recursion + 1;
            Ok(())
        }
    }

    /// Counts one call less.
    pub fn leave_call(&mut self)
        ensures
            final(self)@ == old(self)@.leave_call(),
            old(self)@.wf() ==> final(self)@.wf(),
    {
        if self.params.recursion > 0 {
            self.params.recursion = self.params.recursion - 1;
        }
    }
}

impl ScopeView {
    /// The variables of `definitions` defined one after the other.
    pub open spec fn define_all(self, definitions: Seq<(Seq<char>, ValueView)>) -> ScopeView
        decreases definitions.len(),
    {
        if definitions.len() == 0 {
            self
        } else {
            self.define_all(definitions.drop_last()).define(
                definitions.last().0,
                definitions.last().1,
            )
        }
    }

    /// The names of the variables that the scope at `at` binds.
    pub open spec fn names(self, at: int) -> Set<Seq<char>> {
        self.chain[at].variables.dom()
    }
}

/// A lookup ends in a scope of the chain that binds the name.
pub proof fn lemma_found_is_bound(s: ScopeView, from: int, name: Seq<char>)
    ensures
        s.find_from(from, name) matches Some(i) ==> 0 <= i <= from && i < s.chain.len()
            && s.chain[i].variables.contains_key(name),
    decreases from,
{
    if 0 <= from < s.chain.len() && !s.chain[from].variables.contains_key(name) {
        if let Some(p) = s.chain[from].parent {
            if 0 <= p < from {
                lemma_found_is_bound(s, p, name);
            }
        }
    }
}

/// A lookup of a function ends in a scope of the chain that declares it.
pub proof fn lemma_resolved_is_declared(s: ScopeView, from: int, name: Seq<char>)
    ensures
        s.resolve_from(from, name) matches Some(i) ==> 0 <= i <= from && i < s.chain.len()
            && s.chain[i].functions.contains_key(name),
    decreases from,
{
    if 0 <= from < s.chain.len() && !s.chain[from].functions.contains_key(name) {
        if let Some(p) = s.chain[from].parent {
            if 0 <= p < from {
                lemma_resolved_is_declared(s, p, name);
            }
        }
    }
}

/// Shadowing: a variable defined in a newly opened scope is what a lookup
/// of its name finds there, whatever the scopes outside bind; and when the
/// new scope is closed again, the scopes are what they were, so that any
/// outer binding of the name is as it was.
pub proof fn lemma_shadowing(
    s: ScopeView,
    parent: int,
    variables: Map<Seq<char>, ValueView>,
    name: Seq<char>,
    value: ValueView,
)
    requires
        s.wf(),
        0 <= parent < s.chain.len(),
    ensures
        s.go_down(parent, variables).define(name, value).get_var(name) == Some(value),
        s.go_down(parent, variables).define(name, value).leave() == s,
        s.go_down(parent, variables).define(name, value).leave().get_var(name) == s.get_var(name),
{
    let inner = s.go_down(parent, variables).define(name, value);
    assert(inner.leave().chain =~= s.chain);
}

/// Definitions touch the innermost scope alone: the scopes keep their
/// number, and all but the innermost stay as they are.
pub proof fn lemma_define_all_is_local(s: ScopeView, definitions: Seq<(Seq<char>, ValueView)>)
    requires
        s.wf(),
    ensures
        s.define_all(definitions).chain.len() == s.chain.len(),
        s.define_all(definitions).chain.drop_last() == s.chain.drop_last(),
        s.define_all(definitions).chain.last().parent == s.chain.last().parent,
        s.define_all(definitions).limit == s.limit,
        s.define_all(definitions).recursion == s.recursion,
    decreases definitions.len(),
{
    if definitions.len() > 0 {
        lemma_define_all_is_local(s, definitions.drop_last());
        let before = s.define_all(definitions.drop_last());
        let after = before.define(definitions.last().0, definitions.last().1);
        assert(after.chain.drop_last() =~= before.chain.drop_last());
    } else {
        assert(s.chain.drop_last() =~= s.chain.drop_last());
    }
}

/// Scoping: whatever is defined in a scope is gone when the scope is closed.
/// After a scope was opened, any variables were defined in it and it was
/// closed again, the scopes are what they were before: a variable that no
/// scope bound then is bound by none now.
pub proof fn lemma_scoping(
    s: ScopeView,
    parent: int,
    variables: Map<Seq<char>, ValueView>,
    definitions: Seq<(Seq<char>, ValueView)>,
    name: Seq<char>,
)
    requires
        s.wf(),
        0 <= parent < s.chain.len(),
    ensures
        s.go_down(parent, variables).define_all(definitions).leave() == s,
        s.get_var(name) is None ==> s.go_down(parent, variables).define_all(
            definitions,
        ).leave().get_var(name) is None,
{
    let opened = s.go_down(parent, variables);
    lemma_define_all_is_local(opened, definitions);
    let inner = opened.define_all(definitions);
    assert(opened.chain.drop_last() =~= s.chain);
    assert(inner.leave().chain =~= inner.chain.drop_last());
}

/// An assignment binds no name: every scope binds the names it bound, and
/// has the parent it had.
pub proof fn lemma_assign_binds_no_name(s: ScopeView, name: Seq<char>, value: ValueView)
    ensures
        s.assign(name, value) matches Some(t) ==> t.chain.len() == s.chain.len() && forall|i: int|
            0 <= i < s.chain.len() ==> #[trigger] t.names(i) == s.names(i) && t.chain[i].parent
                == s.chain[i].parent,
{
    lemma_found_is_bound(s, s.innermost(), name);
    if let Some(t) = s.assign(name, value) {
        let at = s.find_var(name).unwrap();
        assert forall|i: int| 0 <= i < s.chain.len() implies #[trigger] t.names(i) == s.names(i)
            && t.chain[i].parent == s.chain[i].parent by {
            if i == at {
                assert(t.names(i) =~= s.names(i));
            }
        }
    }
}

} // verus!
