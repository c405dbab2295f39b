//! The handle table and the construction protocol: a per-call registry
//! mapping opaque integer handles to owned expression nodes, through which
//! an engine that manages its own memory builds an expression tree one
//! handle at a time. Handle `0` is the reserved invalid sentinel, never
//! assigned; every assigned handle is at least `1` and is never reused, so a
//! stale handle can never silently alias a newer unrelated node.

use std::collections::HashMap;
use vstd::prelude::*;

use crate::expressions::{BinaryOperator, Expression, Scalar};

verus! {

broadcast use vstd::std_specs::hash::group_hash_axioms;

/// A set that identifies its contents by an opaque integer reference.
/// Every insertion allocates a fresh id, so an id taken out once can never
/// come back to denote a different value.
pub struct ReferenceSet<T> {
    map: HashMap<usize, T>,
    id: usize,
}

impl<T> ReferenceSet<T> {
    /// The entries currently held, by handle.
    pub closed spec fn spec_map(self) -> Map<usize, T> {
        self.map@
    }

    /// The next handle to be assigned.
    pub closed spec fn spec_next_id(self) -> usize {
        self.id
    }

    /// Handles start at 1 (0 is the reserved invalid sentinel) and every
    /// held handle is below the next id to be assigned. This holds of every
    /// value of the type, so no caller has to establish it.
    #[verifier::type_invariant]
    spec fn wf(self) -> bool {
        &&& self.id >= 1
        &&& forall|h: usize| self.map@.dom().contains(h) ==> 1 <= h < self.id
    }

    /// An empty set whose first handle will be 1.
    pub fn new() -> (s: Self)
        ensures
            s.spec_map() == Map::<usize, T>::empty(),
            s.spec_next_id() == 1,
    {
        ReferenceSet { map: HashMap::new(), id: 1 }
    }

    /// Whether another insertion can be granted a fresh handle; false only
    /// once the id space is exhausted. An embedding that cannot see the
    /// ghost next id tests this before building.
    pub fn can_insert(&self) -> (r: bool)
        ensures
            r == (self.spec_next_id() < usize::MAX),
    {
        self.id < usize::MAX
    }

    /// Insert a new value. This always creates a new entry under a fresh
    /// handle, at least 1, never assigned before.
    pub fn insert(&mut self, value: T) -> (h: usize)
        requires
            old(self).spec_next_id() < usize::MAX,
        ensures
            h == old(self).spec_next_id(),
            h >= 1,
            !old(self).spec_map().dom().contains(h),
            final (self).spec_map() == old(self).spec_map().insert(h, value),
            final (self).spec_next_id() == old(self).spec_next_id() + 1,
    {
        proof {
            use_type_invariant(&*self);
        }
        let i = self.id;
        self.id = self.id + 1;
        // The invariant must hold at every step, and the table must stay
        // whole even if an insertion unwinds, so the map is swapped out,
        // grown, and swapped back.
        let mut map: HashMap<usize, T> = HashMap::new();
        core::mem::swap(&mut map, &mut self.map);
        map.insert(i, value);
        core::mem::swap(&mut map, &mut self.map);
        i
    }

    /// Remove and return the value a handle denotes, if the handle is
    /// currently assigned; absent handles (invalid, already consumed, or
    /// out of range) yield `None`.
    pub fn take(&mut self, i: usize) -> (r: Option<T>)
        ensures
            final (self).spec_map() == old(self).spec_map().remove(i),
            final (self).spec_next_id() == old(self).spec_next_id(),
            match r {
                Some(v) => old(self).spec_map().dom().contains(i) && v == old(self).spec_map()[i],
                None => !old(self).spec_map().dom().contains(i),
            },
    {
        proof {
            use_type_invariant(&*self);
        }
        let mut map: HashMap<usize, T> = HashMap::new();
        core::mem::swap(&mut map, &mut self.map);
        let r = map.remove(&i);
        core::mem::swap(&mut map, &mut self.map);
        r
    }

    /// Whether the set currently holds an entry under this handle.
    pub fn contains(&self, i: usize) -> (r: bool)
        ensures
            r == self.spec_map().dom().contains(i),
    {
        self.map.contains_key(&i)
    }

    /// The current number of entries.
    pub fn len(&self) -> (n: usize)
        ensures
            n == self.spec_map().len(),
    {
        self.map.len()
    }
}

impl<T> Default for ReferenceSet<T> {
    /// Same as [`ReferenceSet::new`].
    fn default() -> (s: Self)
        ensures
            s.spec_map() == Map::<usize, T>::empty(),
            s.spec_next_id() == 1,
    {
        Self::new()
    }
}

/// Call-scoped state of one construction-protocol invocation: the registry
/// of expression nodes built so far and not yet consumed. Not safe for
/// concurrent or re-entrant use: exactly one invocation (with its nested
/// callbacks) must run to completion before another begins.
pub struct KernelExpressionVisitorState {
    inflight_expressions: ReferenceSet<Expression>,
}

impl KernelExpressionVisitorState {
    /// The in-flight expression nodes, by handle.
    pub closed spec fn spec_exprs(self) -> Map<usize, Expression> {
        self.inflight_expressions.spec_map()
    }

    /// The next handle to be assigned.
    pub closed spec fn spec_next_id(self) -> usize {
        self.inflight_expressions.spec_next_id()
    }

    /// Fresh state for one protocol invocation.
    pub fn new() -> (s: Self)
        ensures
            s.spec_exprs() == Map::<usize, Expression>::empty(),
            s.spec_next_id() == 1,
    {
        KernelExpressionVisitorState { inflight_expressions: ReferenceSet::new() }
    }

    /// Whether another node can be stored under a fresh handle; false only
    /// once the id space is exhausted. An embedding that cannot see the
    /// ghost next id tests this before a builder call.
    pub fn can_allocate(&self) -> (r: bool)
        ensures
            r == (self.spec_next_id() < usize::MAX),
    {
        self.inflight_expressions.can_insert()
    }
}

impl Default for KernelExpressionVisitorState {
    /// Same as [`KernelExpressionVisitorState::new`].
    fn default() -> (s: Self)
        ensures
            s.spec_exprs() == Map::<usize, Expression>::empty(),
            s.spec_next_id() == 1,
    {
        Self::new()
    }
}

/// Store a finished node and hand its fresh handle to the engine.
pub fn wrap_expression(state: &mut KernelExpressionVisitorState, expr: Expression) -> (h: usize)
    requires
        old(state).spec_next_id() < usize::MAX,
    ensures
        h == old(state).spec_next_id(),
        h >= 1,
        !old(state).spec_exprs().dom().contains(h),
        final (state).spec_exprs() == old(state).spec_exprs().insert(h, expr),
        final (state).spec_next_id() == old(state).spec_next_id() + 1,
{
    state.inflight_expressions.insert(expr)
}

/// Consume the node a handle denotes, if the handle is valid and not yet
/// consumed.
pub fn unwrap_kernel_expression(state: &mut KernelExpressionVisitorState, exprid: usize) -> (r:
    Option<Box<Expression>>)
    ensures
        final (state).spec_exprs() == old(state).spec_exprs().remove(exprid),
        final (state).spec_next_id() == old(state).spec_next_id(),
        match r {
            Some(e) => old(state).spec_exprs().dom().contains(exprid) && *e == old(
                state,
            ).spec_exprs()[exprid],
            None => !old(state).spec_exprs().dom().contains(exprid),
        },
{
    match state.inflight_expressions.take(exprid) {
        Some(e) => Some(Box::new(e)),
        None => None,
    }
}

/// What one binary-builder call does to the protocol state: both operand
/// handles are consumed whatever happens; when both resolved to nodes and
/// the handles were distinct, a new node owning them is stored under a
/// fresh handle — one the table has never assigned — and otherwise the
/// sentinel 0 is returned.
pub open spec fn spec_binary_build(
    pre: KernelExpressionVisitorState,
    post: KernelExpressionVisitorState,
    op: BinaryOperator,
    a: usize,
    b: usize,
    h: usize,
) -> bool {
    let consumed = pre.spec_exprs().remove(a).remove(b);
    if pre.spec_exprs().dom().contains(a) && pre.spec_exprs().dom().contains(b) && a != b {
        &&& h == pre.spec_next_id()
        &&& h >= 1
        &&& !pre.spec_exprs().dom().contains(h)
        &&& post.spec_exprs() == consumed.insert(
            h,
            (Expression::BinaryOperation {
                op,
                left: Box::new(pre.spec_exprs()[a]),
                right: Box::new(pre.spec_exprs()[b]),
            }),
        )
        &&& post.spec_next_id() == pre.spec_next_id() + 1
    } else {
        &&& h == 0
        &&& post.spec_exprs() == consumed
        &&& post.spec_next_id() == pre.spec_next_id()
    }
}

/// Build `a OP b` from two handles. Each input handle is single-use: both
/// are consumed by this call, and if either is absent (invalid, already
/// consumed, or out of range) the sentinel 0 is returned instead of a new
/// handle.
pub fn visit_expression_binary(
    state: &mut KernelExpressionVisitorState,
    op: BinaryOperator,
    a: usize,
    b: usize,
) -> (h: usize)
    requires
        old(state).spec_next_id() < usize::MAX,
    ensures
        spec_binary_build(*old(state), *final (state), op, a, b, h),
{
    proof {
        use_type_invariant(&state.inflight_expressions);
    }
    let left = unwrap_kernel_expression(state, a);
    let right = unwrap_kernel_expression(state, b);
    match (left, right) {
        (Some(left), Some(right)) => wrap_expression(
            state,
            Expression::BinaryOperation { op, left, right },
        ),
        _ => 0,
    }
}

/// Build `a < b` from two handles; see [`visit_expression_binary`].
pub fn visit_expression_lt(state: &mut KernelExpressionVisitorState, a: usize, b: usize) -> (h:
    usize)
    requires
        old(state).spec_next_id() < usize::MAX,
    ensures
        spec_binary_build(*old(state), *final (state), BinaryOperator::LessThan, a, b, h),
{
    visit_expression_binary(state, BinaryOperator::LessThan, a, b)
}

/// The child handles of a variadic AND that resolve: the first occurrence
/// of each handle the table holds, in the order the sequence produced them.
/// Later duplicates and unassigned handles are skipped.
pub open spec fn spec_valid_children(handles: Seq<usize>, m: Map<usize, Expression>) -> Seq<usize>
    decreases handles.len(),
{
    if handles.len() == 0 {
        Seq::empty()
    } else {
        let rest = spec_valid_children(handles.drop_last(), m);
        let h = handles.last();
        if m.dom().contains(h) && !handles.drop_last().contains(h) {
            rest.push(h)
        } else {
            rest
        }
    }
}

/// The left-associated AND chain over a non-empty expression list.
pub open spec fn spec_and_fold(exprs: Seq<Expression>) -> Expression
    recommends
        exprs.len() >= 1,
    decreases exprs.len(),
{
    if exprs.len() <= 1 {
        exprs[0]
    } else {
        Expression::BinaryOperation {
            op: BinaryOperator::And,
            left: Box::new(spec_and_fold(exprs.drop_last())),
            right: Box::new(exprs.last()),
        }
    }
}

/// The table contents after consuming a list of handles in order.
pub open spec fn spec_remove_all(m: Map<usize, Expression>, hs: Seq<usize>) -> Map<
    usize,
    Expression,
>
    decreases hs.len(),
{
    if hs.len() == 0 {
        m
    } else {
        spec_remove_all(m, hs.drop_last()).remove(hs.last())
    }
}

/// The valid children are distinct, all held by the table, and all drawn
/// from the pulled handles.
proof fn lemma_valid_children_props(handles: Seq<usize>, m: Map<usize, Expression>)
    ensures
        forall|k: int|
            0 <= k < spec_valid_children(handles, m).len() ==> m.dom().contains(
                #[trigger] spec_valid_children(handles, m)[k],
            ) && handles.contains(spec_valid_children(handles, m)[k]),
        forall|k1: int, k2: int|
            0 <= k1 < k2 < spec_valid_children(handles, m).len() ==> spec_valid_children(
                handles,
                m,
            )[k1] != spec_valid_children(handles, m)[k2],
    decreases handles.len(),
{
    if handles.len() > 0 {
        lemma_valid_children_props(handles.drop_last(), m);
        let rest = spec_valid_children(handles.drop_last(), m);
        assert(forall|k: int|
            0 <= k < rest.len() ==> handles.contains(#[trigger] rest[k])) by {
            assert(forall|k: int|
                0 <= k < rest.len() ==> handles.drop_last().contains(#[trigger] rest[k]));
            assert(forall|j: int|
                0 <= j < handles.drop_last().len() ==> handles[j] == #[trigger] handles.drop_last()[j]);
        }
    }
}

/// A handle occurs among the valid children exactly when the sequence pulled
/// it and the table holds it.
proof fn lemma_valid_children_membership(handles: Seq<usize>, m: Map<usize, Expression>, h: usize)
    ensures
        spec_valid_children(handles, m).contains(h) <==> handles.contains(h) && m.dom().contains(
            h,
        ),
    decreases handles.len(),
{
    if handles.len() == 0 {
        assert(!handles.contains(h));
        assert(!spec_valid_children(handles, m).contains(h));
    } else {
        let prefix = handles.drop_last();
        let lastv = handles.last();
        let rest = spec_valid_children(prefix, m);
        lemma_valid_children_membership(prefix, m, h);
        assert(handles.contains(h) <==> prefix.contains(h) || h == lastv) by {
            if handles.contains(h) {
                let k = choose|k: int| 0 <= k < handles.len() && handles[k] == h;
                if k < handles.len() - 1 {
                    assert(prefix[k] == h);
                }
            }
            if prefix.contains(h) {
                let k = choose|k: int| 0 <= k < prefix.len() && prefix[k] == h;
                assert(handles[k] == h);
            }
            if h == lastv {
                assert(handles[handles.len() - 1] == h);
            }
        }
        if m.dom().contains(lastv) && !prefix.contains(lastv) {
            assert(spec_valid_children(handles, m) == rest.push(lastv));
            assert(rest.push(lastv).contains(h) <==> rest.contains(h) || h == lastv) by {
                if rest.push(lastv).contains(h) {
                    let k = choose|k: int|
                        0 <= k < rest.push(lastv).len() && rest.push(lastv)[k] == h;
                    if k < rest.len() {
                        assert(rest[k] == h);
                    }
                }
                if rest.contains(h) {
                    let k = choose|k: int| 0 <= k < rest.len() && rest[k] == h;
                    assert(rest.push(lastv)[k] == h);
                }
                assert(rest.push(lastv)[rest.len() as int] == lastv);
            }
        } else {
            assert(spec_valid_children(handles, m) == rest);
        }
    }
}

/// Consuming handles other than `h` neither hides nor changes the entry at
/// `h`.
proof fn lemma_remove_all_preserves(m: Map<usize, Expression>, hs: Seq<usize>, h: usize)
    requires
        !hs.contains(h),
    ensures
        spec_remove_all(m, hs).dom().contains(h) == m.dom().contains(h),
        m.dom().contains(h) ==> spec_remove_all(m, hs)[h] == m[h],
    decreases hs.len(),
{
    if hs.len() > 0 {
        assert(!hs.drop_last().contains(h)) by {
            if hs.drop_last().contains(h) {
                let k = choose|k: int| 0 <= k < hs.drop_last().len() && hs.drop_last()[k] == h;
                assert(hs[k] == h);
            }
        }
        lemma_remove_all_preserves(m, hs.drop_last(), h);
        assert(hs.last() != h) by {
            if hs.last() == h {
                assert(hs[hs.len() - 1] == h);
            }
        }
    }
}

/// Whether a handle list already holds `h`.
fn contains_handle(hs: &Vec<usize>, h: usize) -> (r: bool)
    ensures
        r == hs@.contains(h),
{
    let mut j: usize = 0;
    while j < hs.len()
        invariant
            j <= hs@.len(),
            forall|k: int| 0 <= k < j ==> hs@[k] != h,
        decreases hs@.len() - j,
    {
        if hs[j] == h {
            return true;
        }
        j = j + 1;
    }
    proof {
        assert(!hs@.contains(h)) by {
            if hs@.contains(h) {
                let k = choose|k: int| 0 <= k < hs@.len() && hs@[k] == h;
                assert(hs@[k] != h);
            }
        }
    }
    false
}

/// Build a variadic AND from an engine-supplied sequence of child handles.
///
/// Child handles that fail to resolve are skipped. No valid child yields the
/// sentinel 0; exactly one valid child yields that child's handle unchanged,
/// with no wrapping node created; two or more valid children are consumed
/// and left-folded into a left-associated chain of binary AND nodes, stored
/// under a fresh handle.
pub fn visit_expression_and(state: &mut KernelExpressionVisitorState, children: &Vec<usize>) -> (h:
    usize)
    requires
        old(state).spec_next_id() < usize::MAX,
    ensures
        ({
            let valid = spec_valid_children(children@, old(state).spec_exprs());
            let folded = spec_and_fold(
                valid.map_values(|vh: usize| old(state).spec_exprs()[vh]),
            );
            if valid.len() == 0 {
                h == 0 && final (state).spec_exprs() == old(state).spec_exprs()
                    && final (state).spec_next_id() == old(state).spec_next_id()
            } else if valid.len() == 1 {
                h == valid[0] && final (state).spec_exprs() == old(state).spec_exprs()
                    && final (state).spec_next_id() == old(state).spec_next_id()
            } else {
                h == old(state).spec_next_id() && h >= 1 && !old(state).spec_exprs().dom().contains(
                    h,
                ) && final (state).spec_exprs() == spec_remove_all(
                    old(state).spec_exprs(),
                    valid,
                ).insert(h, folded) && final (state).spec_next_id() == old(state).spec_next_id() + 1
            }
        }),
{
    let ghost old_m = old(state).spec_exprs();
    let ghost old_next = old(state).spec_next_id();
    proof {
        use_type_invariant(&state.inflight_expressions);
    }
    // First pass: the valid child handles, in pull order.
    let mut valid: Vec<usize> = Vec::new();
    let mut j: usize = 0;
    proof {
        assert(children@.take(0) =~= Seq::<usize>::empty());
    }
    while j < children.len()
        invariant
            j <= children@.len(),
            state.spec_exprs() == old_m,
            state.spec_next_id() == old_next,
            old_next < usize::MAX,
            valid@ == spec_valid_children(children@.take(j as int), old_m),
        decreases children@.len() - j,
    {
        let ch = children[j];
        let in_table = state.inflight_expressions.contains(ch);
        let seen = contains_handle(&valid, ch);
        if in_table && !seen {
            valid.push(ch);
        }
        proof {
            let pulled = children@.take(j as int + 1);
            let before = children@.take(j as int);
            assert(pulled.drop_last() =~= before);
            assert(pulled.last() == children@[j as int]);
            lemma_valid_children_membership(before, old_m, ch);
            if in_table && !seen {
                assert(old_m.dom().contains(ch));
                assert(!before.contains(ch));
                assert(spec_valid_children(pulled, old_m) == spec_valid_children(
                    before,
                    old_m,
                ).push(ch));
            } else {
                assert(!(old_m.dom().contains(ch) && !before.contains(ch)));
                assert(spec_valid_children(pulled, old_m) == spec_valid_children(before, old_m));
            }
            assert(valid@ == spec_valid_children(pulled, old_m));
        }
        j = j + 1;
    }
    proof {
        assert(children@.take(children@.len() as int) =~= children@);
        lemma_valid_children_props(children@, old_m);
    }
    let ghost gvalid = spec_valid_children(children@, old_m);
    if valid.len() == 0 {
        return 0;
    }
    if valid.len() == 1 {
        return valid[0];
    }
    // Two or more valid children: consume them all and fold left.
    let first = unwrap_kernel_expression(state, valid[0]).unwrap();
    let second = unwrap_kernel_expression(state, valid[1]).unwrap();
    let mut acc = Expression::BinaryOperation {
        op: BinaryOperator::And,
        left: first,
        right: second,
    };
    proof {
        let t0 = gvalid.take(0);
        let t1 = gvalid.take(1);
        let t2 = gvalid.take(2);
        assert(t0 =~= Seq::<usize>::empty());
        assert(t1.drop_last() =~= t0);
        assert(t2.drop_last() =~= t1);
        assert(t1.last() == gvalid[0]);
        assert(t2.last() == gvalid[1]);
        assert(spec_remove_all(old_m, t0) == old_m);
        assert(spec_remove_all(old_m, t1) == old_m.remove(gvalid[0]));
        assert(spec_remove_all(old_m, t2) == old_m.remove(gvalid[0]).remove(gvalid[1]));
        let f = |vh: usize| old_m[vh];
        let mapped1 = t1.map_values(f);
        let mapped2 = t2.map_values(f);
        assert(mapped1.len() == 1);
        assert(mapped2.len() == 2);
        assert(mapped1[0] == old_m[gvalid[0]]);
        assert(mapped2[1] == old_m[gvalid[1]]);
        assert(mapped2.drop_last() =~= mapped1);
        assert(mapped2.last() == mapped2[1]);
        assert(spec_and_fold(mapped1) == old_m[gvalid[0]]);
        assert(*first == old_m[gvalid[0]]);
        assert(*second == old_m[gvalid[1]]);
        assert(acc == spec_and_fold(mapped2));
    }
    let mut k: usize = 2;
    while k < valid.len()
        invariant
            2 <= k <= gvalid.len(),
            valid@ == gvalid,
            gvalid == spec_valid_children(children@, old_m),
            state.spec_next_id() == old(state).spec_next_id(),
            old(state).spec_next_id() < usize::MAX,
            state.spec_exprs() == spec_remove_all(old_m, gvalid.take(k as int)),
            acc == spec_and_fold(gvalid.take(k as int).map_values(|vh: usize| old_m[vh])),
        decreases gvalid.len() - k,
    {
        proof {
            lemma_valid_children_props(children@, old_m);
            assert(!gvalid.take(k as int).contains(gvalid[k as int])) by {
                if gvalid.take(k as int).contains(gvalid[k as int]) {
                    let i = choose|i: int|
                        0 <= i < k && gvalid.take(k as int)[i] == gvalid[k as int];
                    assert(gvalid[i] == gvalid[k as int]);
                }
            }
            lemma_remove_all_preserves(old_m, gvalid.take(k as int), gvalid[k as int]);
        }
        let next = unwrap_kernel_expression(state, valid[k]).unwrap();
        acc = Expression::BinaryOperation {
            op: BinaryOperator::And,
            left: Box::new(acc),
            right: next,
        };
        proof {
            let upto = gvalid.take(k as int + 1);
            let cur = gvalid.take(k as int);
            assert(upto.drop_last() =~= cur);
            assert(upto.last() == gvalid[k as int]);
            assert(spec_remove_all(old_m, upto) == spec_remove_all(old_m, cur).remove(
                gvalid[k as int],
            ));
            let f = |vh: usize| old_m[vh];
            let mappedk = upto.map_values(f);
            assert(mappedk.len() == k + 1);
            assert(mappedk.drop_last() =~= cur.map_values(f));
            assert(mappedk.last() == mappedk[k as int]);
            assert(mappedk[k as int] == old_m[gvalid[k as int]]);
            assert(*next == old_m[gvalid[k as int]]);
            assert(acc == spec_and_fold(mappedk));
        }
        k = k + 1;
    }
    proof {
        assert(gvalid.take(gvalid.len() as int) =~= gvalid);
    }
    wrap_expression(state, acc)
}

/// An engine-owned predicate with its recursive visitor. The engine keeps
/// ownership of its native representation; the visitor is invoked once with
/// a fresh call-scoped handle table, walks the native predicate, issues
/// builder calls against the table, and returns one root handle (or the
/// sentinel 0 when it could not build one).
pub trait EnginePredicate {
    /// Walk the native predicate, building nodes against `state`, and
    /// return the root handle.
    fn visit_predicate(&mut self, state: &mut KernelExpressionVisitorState) -> usize;
}

/// Bind an engine predicate before a scan: run its visitor against a fresh
/// call-scoped handle table, then consume the root handle it returned.
/// `None` means the engine produced no usable predicate and the scan
/// proceeds unfiltered; the call-scoped table is discarded either way, so no
/// handle outlives the invocation.
pub fn extract_predicate<P: EnginePredicate>(predicate: &mut P) -> (r: Option<Box<Expression>>) {
    let mut visitor_state = KernelExpressionVisitorState::new();
    let exprid = predicate.visit_predicate(&mut visitor_state);
    unwrap_kernel_expression(&mut visitor_state, exprid)
}

/// Store a column-reference leaf and return its fresh handle.
pub fn visit_expression_column(state: &mut KernelExpressionVisitorState, name: String) -> (h: usize)
    requires
        old(state).spec_next_id() < usize::MAX,
    ensures
        h == old(state).spec_next_id(),
        h >= 1,
        !old(state).spec_exprs().dom().contains(h),
        final (state).spec_exprs() == old(state).spec_exprs().insert(h, Expression::Column(name)),
        final (state).spec_next_id() == old(state).spec_next_id() + 1,
{
    wrap_expression(state, Expression::Column(name))
}

/// Store a string-literal leaf and return its fresh handle.
pub fn visit_expression_literal_string(
    state: &mut KernelExpressionVisitorState,
    value: String,
) -> (h: usize)
    requires
        old(state).spec_next_id() < usize::MAX,
    ensures
        h == old(state).spec_next_id(),
        h >= 1,
        !old(state).spec_exprs().dom().contains(h),
        final (state).spec_exprs() == old(state).spec_exprs().insert(
            h,
            Expression::Literal(Scalar::String(value)),
        ),
        final (state).spec_next_id() == old(state).spec_next_id() + 1,
{
    wrap_expression(state, Expression::Literal(Scalar::String(value)))
}

/// Store a long-literal leaf and return its fresh handle.
pub fn visit_expression_literal_long(state: &mut KernelExpressionVisitorState, value: i64) -> (h:
    usize)
    requires
        old(state).spec_next_id() < usize::MAX,
    ensures
        h == old(state).spec_next_id(),
        h >= 1,
        !old(state).spec_exprs().dom().contains(h),
        final (state).spec_exprs() == old(state).spec_exprs().insert(
            h,
            Expression::Literal(Scalar::Long(value)),
        ),
        final (state).spec_next_id() == old(state).spec_next_id() + 1,
{
    wrap_expression(state, Expression::Literal(Scalar::Long(value)))
}

} // verus!
