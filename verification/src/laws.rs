//! What holds of every run of the machine.
//!
//! In every state that a run passes through, the scopes and the blocks
//! under way match one for one, and the depth of calls is the number of
//! calls under way ([`MachineView::inv`]). From this follow the laws of
//! scoping and of the recursion limit at the end of this module.

use crate::ast::{ExprView, NodeView, Operator};
use crate::error::{ErrorView, InterpreterErrorView};
use crate::machine::{
    bound, ControlView, FrameView, MachineView, ReplyView, RequestView, StoreView,
};
use crate::scope::{
    lemma_assign_binds_no_name, lemma_found_is_bound, lemma_resolved_is_declared, FunctionView,
    ScopeView,
};
use crate::types::ValueView;
use vstd::prelude::*;

verus! {

/// The number of blocks among the frames of `stack`.
pub open spec fn blocks(stack: Seq<FrameView>) -> nat
    decreases stack.len(),
{
    if stack.len() == 0 {
        0
    } else {
        blocks(stack.drop_last()) + if stack.last() is Block {
            1nat
        } else {
            0nat
        }
    }
}

/// The number of calls under way: the blocks among the frames of `stack`
/// that are bodies of calls.
pub open spec fn calls(stack: Seq<FrameView>) -> nat
    decreases stack.len(),
{
    if stack.len() == 0 {
        0
    } else {
        calls(stack.drop_last()) + if stack.last() matches FrameView::Block { call: true, .. } {
            1nat
        } else {
            0nat
        }
    }
}

/// Whether the frames stand in order: the base of each block is the number
/// of blocks beneath it, and the frame at the bottom is a block.
pub open spec fn ordered(stack: Seq<FrameView>) -> bool
    decreases stack.len(),
{
    stack.len() == 0 || (ordered(stack.drop_last()) && match stack.last() {
        FrameView::Block { base, .. } => base == blocks(stack.drop_last()),
        _ => stack.len() > 1,
    })
}

/// The base of the block `frame`.
pub open spec fn base_of(frame: FrameView) -> int
    recommends
        frame is Block,
{
    match frame {
        FrameView::Block { base, .. } => base,
        _ => 0,
    }
}

/// Whether the block `frame` is the body of a call.
pub open spec fn is_call(frame: FrameView) -> bool {
    frame matches FrameView::Block { call: true, .. }
}

/// Whether the first `outer` scopes bind the same names of variables in
/// `b` as in `a`, and have the same parents.
pub open spec fn same_names(a: ScopeView, b: ScopeView, outer: int) -> bool {
    &&& outer <= a.chain.len()
    &&& outer <= b.chain.len()
    &&& forall|i: int|
        0 <= i < outer ==> #[trigger] b.names(i) == a.names(i) && b.chain[i].parent
            == a.chain[i].parent
}

impl StoreView {
    /// The scopes and the frames match:
    /// - the scopes are well formed and the frames stand in order;
    /// - there are as many scopes as blocks, or the root alone where there
    ///   is no block;
    /// - the depth of calls is the number of calls under way, and within
    ///   the limit.
    pub open spec fn sound(self) -> bool {
        &&& self.scope.wf()
        &&& ordered(self.stack)
        &&& self.scope.chain.len() == if self.stack.len() == 0 {
            1
        } else {
            blocks(self.stack) as int
        }
        &&& self.scope.recursion == calls(self.stack)
        &&& self.scope.recursion <= self.scope.limit
    }

    /// Whether the frame at `at` is a block.
    pub open spec fn holds_block(self, at: int) -> bool {
        0 <= at < self.stack.len() && self.stack[at] is Block
    }

    /// Whether the block at `at` in `self` is under way in `after` still,
    /// and the scopes outside it bind the names they bound.
    pub open spec fn under_way(self, after: StoreView, at: int) -> bool {
        &&& after.holds_block(at)
        &&& base_of(after.stack[at]) == base_of(self.stack[at])
        &&& is_call(after.stack[at]) == is_call(self.stack[at])
        &&& same_names(self.scope, after.scope, base_of(self.stack[at]))
    }

    /// Whether the block at `at` in `self` is over in `after`: its frame
    /// and those above are gone and so are its scope and those inside, and
    /// the scopes outside it bind the names they bound.
    pub open spec fn ended(self, after: StoreView, at: int) -> bool {
        let base = base_of(self.stack[at]);
        &&& after.stack.len() == at
        &&& after.scope.chain.len() == if base < 1 {
            1
        } else {
            base
        }
        &&& same_names(self.scope, after.scope, base)
    }

    /// Whether `next` may follow on a state with this store, the block at
    /// `at` being under way: the run is over, or `next` is sound and the
    /// block is under way still or has just ended.
    pub open spec fn follows(self, next: MachineView, at: int) -> bool {
        ||| next.control is Done
        ||| {
            &&& next.store.sound()
            &&& next.control.waits_on_frame() ==> next.store.stack.len() > 0
            &&& self.under_way(next.store, at) || self.ended(next.store, at)
        }
    }
}

impl ControlView {
    /// Whether what is done next is done for a frame: an expression goes to
    /// one, and so does an answer.
    pub open spec fn waits_on_frame(self) -> bool {
        self is Eval || self is Ask
    }
}

impl MachineView {
    /// What holds in every state of a run: the run is over, or the store is
    /// sound and there is a frame wherever the control needs one.
    pub open spec fn inv(self) -> bool {
        ||| self.control is Done
        ||| {
            &&& self.store.sound()
            &&& self.control.waits_on_frame() ==> self.store.stack.len() > 0
        }
    }

    /// The state after the steps that `replies` are handed to, one after
    /// the other.
    pub open spec fn steps(self, replies: Seq<ReplyView>) -> MachineView
        decreases replies.len(),
    {
        if replies.len() == 0 {
            self
        } else {
            self.steps(replies.drop_last()).step(replies.last())
        }
    }
}

proof fn lemma_push(stack: Seq<FrameView>, frame: FrameView)
    ensures
        frame is Block ==> blocks(stack.push(frame)) == blocks(stack) + 1,
        !(frame is Block) ==> blocks(stack.push(frame)) == blocks(stack),
        is_call(frame) ==> calls(stack.push(frame)) == calls(stack) + 1,
        !is_call(frame) ==> calls(stack.push(frame)) == calls(stack),
        frame is Block ==> ordered(stack.push(frame)) == (ordered(stack) && base_of(frame)
            == blocks(stack)),
        !(frame is Block) ==> ordered(stack.push(frame)) == (ordered(stack) && stack.len() > 0),
{
    assert(stack.push(frame).drop_last() =~= stack);
}

/// The frames beneath a frame hold no more blocks than all of them, and
/// fewer if the frame is a block itself.
proof fn lemma_blocks_beneath(stack: Seq<FrameView>, at: int)
    requires
        0 <= at < stack.len(),
    ensures
        blocks(stack.take(at)) <= blocks(stack),
        stack[at] is Block ==> blocks(stack.take(at)) < blocks(stack),
        calls(stack.take(at)) <= calls(stack),
    decreases stack.len(),
{
    if at == stack.len() - 1 {
        assert(stack.take(at) =~= stack.drop_last());
    } else {
        lemma_blocks_beneath(stack.drop_last(), at);
        assert(stack.drop_last().take(at) =~= stack.take(at));
    }
}

/// Where the frames stand in order, so do those beneath any of them, and
/// the base of each block is the number of blocks beneath it.
proof fn lemma_ordered_beneath(stack: Seq<FrameView>, at: int)
    requires
        ordered(stack),
        0 <= at < stack.len(),
    ensures
        ordered(stack.take(at)),
        stack[at] is Block ==> base_of(stack[at]) == blocks(stack.take(at)),
        stack[0] is Block,
        blocks(stack) >= 1,
    decreases stack.len(),
{
    if at == stack.len() - 1 {
        assert(stack.take(at) =~= stack.drop_last());
        if at > 0 {
            lemma_ordered_beneath(stack.drop_last(), 0);
        }
    } else {
        lemma_ordered_beneath(stack.drop_last(), at);
        assert(stack.drop_last().take(at) =~= stack.take(at));
    }
}

/// In a sound store the scope of a block stands inside the chain, and the
/// innermost scope is that of the topmost block.
proof fn lemma_block_has_scope(store: StoreView, at: int)
    requires
        store.sound(),
        store.holds_block(at),
    ensures
        0 <= base_of(store.stack[at]) < store.scope.chain.len(),
        store.scope.chain.len() == blocks(store.stack),
{
    lemma_ordered_beneath(store.stack, at);
    lemma_blocks_beneath(store.stack, at);
}

proof fn lemma_same_names_refl(a: ScopeView, outer: int)
    requires
        outer <= a.chain.len(),
    ensures
        same_names(a, a, outer),
{
}

proof fn lemma_same_names_trans(a: ScopeView, b: ScopeView, c: ScopeView, outer: int)
    requires
        same_names(a, b, outer),
        same_names(b, c, outer),
    ensures
        same_names(a, c, outer),
{
    assert forall|i: int| 0 <= i < outer implies #[trigger] c.names(i) == a.names(i)
        && c.chain[i].parent == a.chain[i].parent by {
        assert(b.names(i) == a.names(i));
        assert(c.names(i) == b.names(i));
    }
}

/// A lookup that starts among the first `outer` scopes ends alike where
/// these bind the same names.
pub proof fn lemma_same_names_same_lookup(
    a: ScopeView,
    b: ScopeView,
    outer: int,
    from: int,
    name: Seq<char>,
)
    requires
        same_names(a, b, outer),
        from < outer,
    ensures
        a.find_from(from, name) == b.find_from(from, name),
    decreases from,
{
    if 0 <= from {
        assert(b.names(from) == a.names(from));
        if !a.chain[from].variables.contains_key(name) {
            if let Some(p) = a.chain[from].parent {
                if 0 <= p < from {
                    lemma_same_names_same_lookup(a, b, outer, p, name);
                }
            }
        }
    }
}

impl StoreView {
    /// Whether `after` is sound and has frames, and the block at `at` in
    /// `self` is under way in it still.
    pub open spec fn steady(self, after: StoreView, at: int) -> bool {
        &&& after.sound()
        &&& self.under_way(after, at)
    }
}

proof fn lemma_steady_then_follows(a: StoreView, b: StoreView, next: MachineView, at: int)
    requires
        a.holds_block(at),
        a.steady(b, at),
        b.follows(next, at),
    ensures
        a.follows(next, at),
{
    if !(next.control is Done) {
        lemma_same_names_trans(a.scope, b.scope, next.store.scope, base_of(a.stack[at]));
    }
}

proof fn lemma_steady_refl(a: StoreView, at: int)
    requires
        a.sound(),
        a.holds_block(at),
    ensures
        a.steady(a, at),
{
    lemma_block_has_scope(a, at);
    lemma_same_names_refl(a.scope, base_of(a.stack[at]));
}

/// A frame that is no block may be pushed.
proof fn lemma_pushed(s: StoreView, frame: FrameView, at: int)
    requires
        s.sound(),
        s.holds_block(at),
        !(frame is Block),
    ensures
        s.steady(s.push(frame), at),
{
    lemma_push(s.stack, frame);
    lemma_steady_refl(s, at);
}

/// A frame that is no block may be popped.
proof fn lemma_popped(s: StoreView, at: int)
    requires
        s.sound(),
        s.holds_block(at),
        !(s.stack.last() is Block),
    ensures
        s.steady(s.pop(), at),
        at < s.stack.len() - 1,
{
    lemma_steady_refl(s, at);
    lemma_ordered_beneath(s.stack, at);
}

/// The block on top may go on to its next statement.
proof fn lemma_block_advanced(s: StoreView, at: int)
    requires
        s.sound(),
        s.holds_block(at),
        s.stack.last() is Block,
    ensures
        ({
            let next = match s.stack.last() {
                FrameView::Block { nodes, next, base, call } => FrameView::Block {
                    nodes,
                    next: next + 1,
                    base,
                    call,
                },
                other => other,
            };
            s.steady(s.pop().push(next), at)
        }),
{
    let next = match s.stack.last() {
        FrameView::Block { nodes, next, base, call } => FrameView::Block {
            nodes,
            next: next + 1,
            base,
            call,
        },
        other => other,
    };
    lemma_push(s.stack.drop_last(), next);
    lemma_steady_refl(s, at);
    assert(s.stack.len() > 0);
}

/// Within the innermost scope a variable may be defined.
proof fn lemma_defined(s: StoreView, name: Seq<char>, value: ValueView, at: int)
    requires
        s.sound(),
        s.holds_block(at),
    ensures
        s.steady(s.within(s.scope.define(name, value)), at),
{
    lemma_block_has_scope(s, at);
    let t = s.scope.define(name, value);
    assert(t.wf());
    assert(same_names(s.scope, t, base_of(s.stack[at])));
}

/// A variable that is bound may be assigned.
proof fn lemma_assigned(s: StoreView, name: Seq<char>, value: ValueView, at: int)
    requires
        s.sound(),
        s.holds_block(at),
        s.scope.assign(name, value) is Some,
    ensures
        s.steady(s.within(s.scope.assign(name, value)->0), at),
{
    lemma_block_has_scope(s, at);
    lemma_assign_binds_no_name(s.scope, name, value);
    lemma_found_is_bound(s.scope, s.scope.innermost(), name);
    let t = s.scope.assign(name, value)->0;
    assert(t.wf());
    assert(same_names(s.scope, t, base_of(s.stack[at])));
}

/// Within the innermost scope a function may be declared.
proof fn lemma_declared(s: StoreView, name: Seq<char>, function: FunctionView, at: int)
    requires
        s.sound(),
        s.holds_block(at),
    ensures
        s.steady(s.within(s.scope.declare_function(name, function)), at),
{
    lemma_block_has_scope(s, at);
    let t = s.scope.declare_function(name, function);
    assert(t.wf());
    assert forall|i: int| 0 <= i < base_of(s.stack[at]) implies #[trigger] t.names(i) == s.scope.names(
        i,
    ) && t.chain[i].parent == s.scope.chain[i].parent by {}
}

/// A block may begin in a new scope, child of any scope there is; as the
/// body of a call if one call more is within the limit.
proof fn lemma_begun(
    s: StoreView,
    parent: int,
    variables: Map<Seq<char>, ValueView>,
    block: Seq<NodeView>,
    call: bool,
    at: int,
)
    requires
        s.sound(),
        s.holds_block(at),
        0 <= parent < s.scope.chain.len(),
        call ==> !s.scope.at_limit(),
    ensures
        ({
            let entered = if call {
                s.scope.enter_call()
            } else {
                s.scope
            };
            let next = s.within(entered.go_down(parent, variables)).begin(block, call);
            s.steady(next.store, at) && next.control is Give
        }),
{
    lemma_block_has_scope(s, at);
    let entered = if call {
        s.scope.enter_call()
    } else {
        s.scope
    };
    let scope = entered.go_down(parent, variables);
    let frame = FrameView::Block { nodes: block, next: 0, base: scope.innermost(), call };
    lemma_push(s.stack, frame);
    assert(scope.wf());
    assert(same_names(s.scope, scope, base_of(s.stack[at])));
}

/// The block on top may end.
proof fn lemma_block_ended(s: StoreView, at: int)
    requires
        s.sound(),
        s.holds_block(at),
        s.stack.last() is Block,
    ensures
        ({
            let after = s.pop().end(base_of(s.stack.last()), is_call(s.stack.last()));
            &&& after.sound()
            &&& at < s.stack.len() - 1 ==> s.under_way(after, at)
            &&& at == s.stack.len() - 1 ==> s.ended(after, at)
        }),
{
    let top = s.stack.len() - 1;
    let base = base_of(s.stack.last());
    let after = s.pop().end(base, is_call(s.stack.last()));
    lemma_block_has_scope(s, at);
    lemma_block_has_scope(s, top);
    lemma_ordered_beneath(s.stack, top);
    assert(s.stack.take(top) =~= s.stack.drop_last());
    if top > 0 {
        lemma_ordered_beneath(s.stack.drop_last(), 0);
    }
    assert(after.scope.wf());
    if at < top {
        lemma_ordered_beneath(s.stack, at);
        lemma_blocks_beneath(s.stack.drop_last(), at);
        assert(s.stack.drop_last().take(at) =~= s.stack.take(at));
    }
    assert(same_names(s.scope, after.scope, base_of(s.stack[at])));
}

proof fn lemma_interpret_fn(s: StoreView, ident: Seq<char>, values: Seq<ValueView>, at: int)
    requires
        s.sound(),
        s.holds_block(at),
    ensures
        s.follows(s.interpret_fn(ident, values), at),
{
    lemma_resolved_is_declared(s.scope, s.scope.innermost(), ident);
    if let Some(home) = s.scope.resolve_function(ident) {
        let function = s.scope.chain[home].functions[ident];
        if values.len() == function.args.len() && !s.scope.at_limit() {
            lemma_begun(s, home, bound(function.args, values), function.block, true, at);
        }
    }
}

proof fn lemma_interpret_expr(s: StoreView, expr: ExprView, at: int)
    requires
        s.sound(),
        s.holds_block(at),
    ensures
        s.follows(s.interpret_expr(expr), at),
{
    lemma_steady_refl(s, at);
    match expr {
        ExprView::Variable(name) => {},
        ExprView::Value(value) => {},
        ExprView::Binary(op, left, right) => {
            lemma_pushed(s, FrameView::Right { op, right: *right }, at);
        },
        ExprView::FnCall(ident, args) => {
            if args.len() == 0 {
                lemma_interpret_fn(s, ident, Seq::empty(), at);
            } else {
                lemma_pushed(s, FrameView::Args { ident, args, values: Seq::empty() }, at);
            }
        },
        ExprView::Entrada(kind) => {},
    }
}

proof fn lemma_interpret_ast(s: StoreView, node: NodeView, at: int)
    requires
        s.sound(),
        s.holds_block(at),
    ensures
        s.follows(s.interpret_ast(node), at),
{
    lemma_steady_refl(s, at);
    match node {
        NodeView::Print(exprs) => {
            if exprs.len() > 0 {
                lemma_pushed(s, FrameView::Print { exprs, next: 0, line: Seq::empty() }, at);
            }
        },
        NodeView::Val(_) => {},
        NodeView::Definition { ident, expr } => {
            lemma_pushed(s, FrameView::Define { ident }, at);
        },
        NodeView::Assign { ident, expr } => {
            lemma_pushed(s, FrameView::Assign { ident }, at);
        },
        NodeView::If { comp, block, senao } => {
            lemma_pushed(s, FrameView::If { block, senao }, at);
        },
        NodeView::While { comp, block } => {
            lemma_pushed(s, FrameView::While { comp, block }, at);
        },
        NodeView::Function { ident, args, block } => {
            lemma_declared(s, ident, FunctionView { args, block }, at);
        },
        NodeView::FnCall { ident, vars } => {
            let pushed = s.push(FrameView::Discard);
            lemma_pushed(s, FrameView::Discard, at);
            lemma_interpret_expr(pushed, ExprView::FnCall(ident, vars), at);
            lemma_steady_then_follows(
                s,
                pushed,
                pushed.interpret_expr(ExprView::FnCall(ident, vars)),
                at,
            );
        },
        NodeView::Return(expr) => {
            lemma_pushed(s, FrameView::Return, at);
        },
        NodeView::Expression(expr) => {
            lemma_pushed(s, FrameView::Discard, at);
        },
    }
}

proof fn lemma_apply(s: StoreView, op: Operator, left: ValueView, right: ValueView, at: int)
    requires
        s.sound(),
        s.holds_block(at),
    ensures
        s.follows(s.apply(op, left, right), at),
{
    lemma_steady_refl(s, at);
    if let Operator::Arithmetic(a) = op {
        if let Ok(crate::types::OutcomeView::Format { number, text, number_first }) =
            ValueView::arithmetic(a, left, right) {
            lemma_pushed(
                s,
                FrameView::Apply { op, held: ValueView::String(text), held_is_left: !number_first },
                at,
            );
        }
    }
}

proof fn lemma_eval_scope(s: StoreView, block: Seq<NodeView>, at: int)
    requires
        s.sound(),
        s.holds_block(at),
    ensures
        s.follows(s.eval_scope(block), at),
{
    lemma_block_has_scope(s, at);
    lemma_begun(s, s.scope.innermost(), Map::empty(), block, false, at);
}

proof fn lemma_choose_block(
    s: StoreView,
    value: ValueView,
    block: Seq<NodeView>,
    other: Option<Seq<NodeView>>,
    at: int,
)
    requires
        s.sound(),
        s.holds_block(at),
    ensures
        s.follows(s.choose_block(value, block, other), at),
{
    lemma_steady_refl(s, at);
    lemma_eval_scope(s, block, at);
    if let Some(b) = other {
        lemma_eval_scope(s, b, at);
    }
}

proof fn lemma_resume_block(s: StoreView, value: ValueView, at: int)
    requires
        s.sound(),
        s.holds_block(at),
        s.stack.last() is Block,
    ensures
        s.follows(s.pop().resume(s.stack.last(), value), at),
{
    if let FrameView::Block { nodes, next, base, call } = s.stack.last() {
        if 0 <= next < nodes.len() {
            let advanced = s.pop().push(FrameView::Block { nodes, next: next + 1, base, call });
            lemma_block_advanced(s, at);
            lemma_interpret_ast(advanced, nodes[next], at);
            lemma_steady_then_follows(s, advanced, advanced.interpret_ast(nodes[next]), at);
        } else {
            lemma_block_ended(s, at);
        }
    }
}

proof fn lemma_resume_frame(s: StoreView, value: ValueView, at: int)
    requires
        s.sound(),
        s.holds_block(at),
        !(s.stack.last() is Block),
    ensures
        s.follows(s.pop().resume(s.stack.last(), value), at),
{
    let p = s.pop();
    let next = p.resume(s.stack.last(), value);
    lemma_popped(s, at);
    lemma_steady_refl(p, at);
    match s.stack.last() {
        FrameView::Block { .. } => {},
        FrameView::Right { op, right } => {
            lemma_pushed(p, FrameView::Apply { op, held: value, held_is_left: true }, at);
        },
        FrameView::Apply { op, held, held_is_left } => {
            if held_is_left {
                lemma_apply(p, op, held, value, at);
            } else {
                lemma_apply(p, op, value, held, at);
            }
        },
        FrameView::Args { ident, args, values } => {
            let values = values.push(value);
            if values.len() < args.len() {
                lemma_pushed(p, FrameView::Args { ident, args, values }, at);
            } else {
                lemma_interpret_fn(p, ident, values, at);
            }
        },
        FrameView::Print { exprs, next, line } => {
            match value.text() {
                None => {
                    lemma_pushed(p, s.stack.last(), at);
                },
                Some(word) => {
                    let line = if next == 0 {
                        word
                    } else {
                        line + seq![' '] + word
                    };
                    if 0 <= next + 1 < exprs.len() {
                        lemma_pushed(p, FrameView::Print { exprs, next: next + 1, line }, at);
                    }
                },
            }
        },
        FrameView::Define { ident } => {
            lemma_defined(p, ident, value, at);
        },
        FrameView::Assign { ident } => {
            if p.scope.assign(ident, value) is Some {
                lemma_assigned(p, ident, value, at);
            }
        },
        FrameView::If { block, senao } => {
            lemma_choose_block(p, value, block, senao, at);
        },
        FrameView::While { comp, block } => {
            if value == ValueView::Bool(true) {
                let looping = p.push(FrameView::Loop { comp, block });
                lemma_pushed(p, FrameView::Loop { comp, block }, at);
                lemma_eval_scope(looping, block, at);
                lemma_steady_then_follows(p, looping, looping.eval_scope(block), at);
            }
        },
        FrameView::Loop { comp, block } => {
            lemma_pushed(p, FrameView::While { comp, block }, at);
        },
        FrameView::Return => {},
        FrameView::Discard => {},
    }
    assert(p.follows(next, at));
    lemma_steady_then_follows(s, p, next, at);
}

proof fn lemma_unwind(s: StoreView, value: ValueView, at: int)
    requires
        s.sound(),
        s.holds_block(at),
    ensures
        s.follows(s.unwind(value), at),
{
    if s.stack.last() is Block {
        lemma_block_ended(s, at);
    } else {
        lemma_popped(s, at);
    }
}

proof fn lemma_answer(s: StoreView, request: RequestView, reply: ReplyView, at: int)
    requires
        s.sound(),
        s.holds_block(at),
    ensures
        s.follows(s.answer(request, reply), at),
{
    lemma_steady_refl(s, at);
}

/// One step, seen from a block that is under way: the run ends, or the
/// state is as it must be and the block is under way still or has just
/// ended, and the scopes outside it bind the names they bound.
pub proof fn lemma_step(m: MachineView, reply: ReplyView, at: int)
    requires
        m.inv(),
        m.store.holds_block(at),
    ensures
        m.store.follows(m.step(reply), at),
{
    let s = m.store;
    match m.control {
        ControlView::Eval(expr) => {
            lemma_interpret_expr(s, expr, at);
        },
        ControlView::Give(value) => {
            if s.stack.last() is Block {
                lemma_resume_block(s, value, at);
            } else {
                lemma_resume_frame(s, value, at);
            }
        },
        ControlView::Unwind(value) => {
            lemma_unwind(s, value, at);
        },
        ControlView::Ask(request) => {
            lemma_answer(s, request, reply, at);
        },
        ControlView::Done(_) => {},
    }
}

/// A block that begins in the innermost scope of a sound store without
/// frames, as the program does at the start of a run, leaves it sound.
pub proof fn lemma_interpret_program_keeps_inv(s: StoreView, block: Seq<NodeView>)
    requires
        s.sound(),
        s.stack.len() == 0,
    ensures
        s.interpret_program(block).inv(),
{
    let frame = FrameView::Block { nodes: block, next: 0, base: s.scope.innermost(), call: false };
    lemma_push(s.stack, frame);
}

/// A block that begins in a new scope keeps the invariant.
pub proof fn lemma_eval_scope_keeps_inv(s: StoreView, block: Seq<NodeView>)
    requires
        s.sound(),
        s.stack.len() > 0,
    ensures
        s.eval_scope(block).inv(),
{
    lemma_ordered_beneath(s.stack, 0);
    lemma_eval_scope(s, block, 0);
}

/// A call keeps the invariant.
pub proof fn lemma_interpret_fn_keeps_inv(s: StoreView, ident: Seq<char>, values: Seq<ValueView>)
    requires
        s.sound(),
        s.stack.len() > 0,
    ensures
        s.interpret_fn(ident, values).inv(),
{
    lemma_ordered_beneath(s.stack, 0);
    lemma_interpret_fn(s, ident, values, 0);
}

/// The beginning of an expression keeps the invariant.
pub proof fn lemma_interpret_expr_keeps_inv(s: StoreView, expr: ExprView)
    requires
        s.sound(),
        s.stack.len() > 0,
    ensures
        s.interpret_expr(expr).inv(),
{
    lemma_ordered_beneath(s.stack, 0);
    lemma_interpret_expr(s, expr, 0);
}

/// The beginning of a statement keeps the invariant.
pub proof fn lemma_interpret_ast_keeps_inv(s: StoreView, node: NodeView)
    requires
        s.sound(),
        s.stack.len() > 0,
    ensures
        s.interpret_ast(node).inv(),
{
    lemma_ordered_beneath(s.stack, 0);
    lemma_interpret_ast(s, node, 0);
}

/// A run starts in a state in which the invariant holds, with the program
/// for its one block.
pub proof fn lemma_start(limit: usize, program: Seq<NodeView>)
    ensures
        MachineView::start(limit, 0, program).inv(),
        MachineView::start(limit, 0, program).store.holds_block(0),
        MachineView::start(limit, 0, program).store.stack.len() == 1,
{
    let root = StoreView { scope: ScopeView::root(limit, 0), stack: Seq::empty() };
    let frame = FrameView::Block { nodes: program, next: 0, base: 0, call: false };
    lemma_push(root.stack, frame);
    assert(root.scope.wf());
}

/// A step keeps the invariant.
pub proof fn lemma_step_keeps_inv(m: MachineView, reply: ReplyView)
    requires
        m.inv(),
    ensures
        m.step(reply).inv(),
{
    if !(m.control is Done) && m.store.stack.len() > 0 {
        lemma_ordered_beneath(m.store.stack, 0);
        lemma_step(m, reply, 0);
    }
}

/// Any number of steps keep the invariant.
pub proof fn lemma_steps_keep_inv(m: MachineView, replies: Seq<ReplyView>)
    requires
        m.inv(),
    ensures
        m.steps(replies).inv(),
    decreases replies.len(),
{
    if replies.len() > 0 {
        lemma_steps_keep_inv(m, replies.drop_last());
        lemma_step_keeps_inv(m.steps(replies.drop_last()), replies.last());
    }
}

/// Steps that need nothing from the host keep the invariant.
pub proof fn lemma_proceed_keeps_inv(m: MachineView, budget: nat)
    requires
        m.inv(),
    ensures
        m.proceed(budget).inv(),
    decreases budget,
{
    if budget > 0 && m.control.busy() {
        lemma_step_keeps_inv(m, ReplyView::Nothing);
        lemma_proceed_keeps_inv(m.step(ReplyView::Nothing), (budget - 1) as nat);
    }
}

/// A run keeps the invariant, whatever the reply and the budget.
pub proof fn lemma_run_keeps_inv(m: MachineView, reply: ReplyView, budget: nat)
    requires
        m.inv(),
    ensures
        m.run(reply, budget).inv(),
{
    if budget > 0 {
        lemma_step_keeps_inv(m, reply);
        lemma_proceed_keeps_inv(m.step(reply), (budget - 1) as nat);
    }
}

/// The recursion limit. While a run is under way the depth of calls is the
/// number of calls under way, and no more than the limit. A call of a
/// function that is declared, with as many arguments as it has parameters,
/// - begins where fewer calls than the limit are under way, and is then
///   one call more;
/// - else ends the run with the error that gives the limit, and puts the
///   depth back to zero.
/// So calls nest as deep as the limit and no deeper: the call that would be
/// one too many fails, and none before it does for this reason.
pub proof fn lemma_recursion_limit(m: MachineView, ident: Seq<char>, values: Seq<ValueView>)
    requires
        m.inv(),
        !(m.control is Done),
        m.store.stack.len() > 0,
        m.store.scope.resolve_function(ident) matches Some(home)
            && m.store.scope.chain[home].functions[ident].args.len() == values.len(),
    ensures
        m.store.scope.recursion == calls(m.store.stack),
        calls(m.store.stack) <= m.store.scope.limit,
        calls(m.store.stack) < m.store.scope.limit ==> ({
            let next = m.store.interpret_fn(ident, values);
            &&& next.control == ControlView::Give(ValueView::Void)
            &&& next.inv()
            &&& calls(next.store.stack) == calls(m.store.stack) + 1
        }),
        calls(m.store.stack) == m.store.scope.limit ==> ({
            let next = m.store.interpret_fn(ident, values);
            &&& next.control == ControlView::Done(
                Err(
                    ErrorView::InterpreterError(
                        InterpreterErrorView::RecursionLimit(m.store.scope.limit),
                    ),
                ),
            )
            &&& next.store.scope.recursion == 0
        }),
{
    let s = m.store;
    lemma_ordered_beneath(s.stack, 0);
    lemma_interpret_fn(s, ident, values, 0);
    let home = s.scope.resolve_function(ident)->0;
    let function = s.scope.chain[home].functions[ident];
    if !s.scope.at_limit() {
        let scope = s.scope.enter_call().go_down(home, bound(function.args, values));
        let frame = FrameView::Block {
            nodes: function.block,
            next: 0,
            base: scope.innermost(),
            call: true,
        };
        lemma_push(s.stack, frame);
    }
}

/// The number of arguments. A call of a function that is declared, with
/// another number of arguments than it has parameters, ends the run with
/// the error that names the function and gives both numbers, and says
/// `was` of one argument and `were` of any other number.
pub proof fn lemma_wrong_number_of_args(s: StoreView, ident: Seq<char>, values: Seq<ValueView>)
    requires
        s.scope.resolve_function(ident) matches Some(home)
            && s.scope.chain[home].functions[ident].args.len() != values.len(),
    ensures
        ({
            let home = s.scope.resolve_function(ident)->0;
            let expected = s.scope.chain[home].functions[ident].args.len();
            s.interpret_fn(ident, values).control == ControlView::Done(
                Err(
                    ErrorView::InterpreterError(
                        InterpreterErrorView::WrongNumberOfArgs(
                            ident,
                            expected as usize,
                            values.len() as usize,
                            if values.len() == 1 {
                                "was"@
                            } else {
                                "were"@
                            },
                        ),
                    ),
                ),
            )
        }),
{
}

/// Scoping, step by step. As long as a block is under way, the scopes
/// outside it bind the names of variables that they bound when the steps
/// began, whatever the program does and whatever the host replies; and at
/// the step that ends the block, its scope and all scopes inside it are
/// closed. `replies` are handed to as many steps; before each of them the
/// run is not over and the block at `at` is under way.
pub proof fn lemma_block_keeps_outer_names(m: MachineView, replies: Seq<ReplyView>, at: int)
    requires
        m.inv(),
        !(m.control is Done),
        m.store.holds_block(at),
        forall|k: int|
            0 <= k < replies.len() ==> !((#[trigger] m.steps(replies.take(k))).control is Done)
                && m.steps(replies.take(k)).store.stack.len() > at,
    ensures
        m.store.follows(m.steps(replies), at),
    decreases replies.len(),
{
    if replies.len() == 0 {
        lemma_steady_refl(m.store, at);
    } else {
        let earlier = replies.drop_last();
        assert forall|k: int| 0 <= k < earlier.len() implies !((#[trigger] m.steps(
            earlier.take(k),
        )).control is Done) && m.steps(earlier.take(k)).store.stack.len() > at by {
            assert(earlier.take(k) =~= replies.take(k));
        }
        lemma_block_keeps_outer_names(m, earlier, at);
        let before = m.steps(earlier);
        assert(replies.take(replies.len() - 1) =~= earlier);
        assert(!(m.steps(replies.take(replies.len() - 1)).control is Done));
        lemma_step(before, replies.last(), at);
        lemma_steady_then_follows(m.store, before.store, before.step(replies.last()), at);
    }
}

/// Scoping. When a block has ended, a lookup of a variable ends where it
/// would have ended outside the block before: what was defined in the
/// block, or in a block or a call inside it, is bound no more, and a
/// variable that was not bound outside the block is not bound now.
pub proof fn lemma_block_scoping(before: StoreView, after: StoreView, at: int, name: Seq<char>)
    requires
        before.holds_block(at),
        before.ended(after, at),
        base_of(before.stack[at]) >= 1,
    ensures
        after.scope.find_var(name) == before.scope.find_from(
            base_of(before.stack[at]) - 1,
            name,
        ),
        before.scope.find_from(base_of(before.stack[at]) - 1, name) is None
            ==> after.scope.get_var(name) is None,
{
    let base = base_of(before.stack[at]);
    lemma_same_names_same_lookup(before.scope, after.scope, base, base - 1, name);
}

/// `n` replies that hand nothing over.
pub open spec fn quiet(n: nat) -> Seq<ReplyView> {
    Seq::new(n, |i: int| ReplyView::Nothing)
}

/// Steps may be counted from the first as well as from the last.
proof fn lemma_steps_from_the_first(m: MachineView, reply: ReplyView, replies: Seq<ReplyView>)
    ensures
        m.steps(seq![reply] + replies) == m.step(reply).steps(replies),
    decreases replies.len(),
{
    let all = seq![reply] + replies;
    if replies.len() == 0 {
        assert(all.drop_last() =~= Seq::empty());
        assert(m.steps(all.drop_last()) == m);
    } else {
        lemma_steps_from_the_first(m, reply, replies.drop_last());
        assert(all.drop_last() =~= seq![reply] + replies.drop_last());
    }
}

/// Steps that need nothing from the host are steps: `budget` of them at
/// most, each with nothing for its reply.
pub proof fn lemma_proceed_is_steps(m: MachineView, budget: nat) -> (n: nat)
    ensures
        n <= budget,
        m.proceed(budget) == m.steps(quiet(n)),
    decreases budget,
{
    if budget == 0 || !m.control.busy() {
        assert(quiet(0) =~= Seq::empty());
        0
    } else {
        let n = lemma_proceed_is_steps(m.step(ReplyView::Nothing), (budget - 1) as nat);
        lemma_steps_from_the_first(m, ReplyView::Nothing, quiet(n));
        assert(seq![ReplyView::Nothing] + quiet(n) =~= quiet(n + 1));
        n + 1
    }
}

/// A run is steps: `budget` of them at most, the first with the reply and
/// the others with nothing for theirs. What holds after any steps holds
/// after a run.
pub proof fn lemma_run_is_steps(m: MachineView, reply: ReplyView, budget: nat) -> (n: nat)
    ensures
        budget == 0 ==> m.run(reply, budget) == m,
        budget > 0 ==> n < budget && m.run(reply, budget) == m.steps(seq![reply] + quiet(n)),
{
    if budget == 0 {
        0
    } else {
        let n = lemma_proceed_is_steps(m.step(reply), (budget - 1) as nat);
        lemma_steps_from_the_first(m, reply, quiet(n));
        n
    }
}

/// A reply is looked at only where the machine asked: a step of a state
/// that asks nothing is the same whatever it is handed, and a run that is
/// over stays as it is.
pub proof fn lemma_reply_unread(m: MachineView, one: ReplyView, other: ReplyView)
    requires
        !(m.control is Ask),
    ensures
        m.step(one) == m.step(other),
        m.control is Done ==> m.step(one) == m,
{
}

/// A reply that answers another request than the one the machine waits on
/// changes nothing.
pub proof fn lemma_wrong_reply_ignored(m: MachineView, reply: ReplyView)
    requires
        m.control matches ControlView::Ask(request) && !answers(request, reply),
    ensures
        m.step(reply) == m,
{
}

/// Whether `reply` answers `request`.
pub open spec fn answers(request: RequestView, reply: ReplyView) -> bool {
    match request {
        RequestView::Print(_) => reply is Nothing,
        RequestView::Read(_) => reply is Line,
        RequestView::ParseFloat(_) => reply is Parsed,
        RequestView::FloatArith(_, _, _) => reply is Float,
        RequestView::FormatFloat(_) => reply is Text,
    }
}

} // verus!
