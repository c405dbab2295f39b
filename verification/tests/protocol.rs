use deltakernel::expressions::BinaryOperator;
use deltakernel::protocol::{
    extract_predicate, unwrap_kernel_expression, visit_expression_and, visit_expression_binary,
    visit_expression_column, visit_expression_literal_long, visit_expression_literal_string,
    visit_expression_lt, EnginePredicate, KernelExpressionVisitorState, ReferenceSet,
};

#[test]
fn reference_set_never_reuses_handles() {
    let mut set: ReferenceSet<u32> = ReferenceSet::new();
    let a = set.insert(10);
    let b = set.insert(20);
    assert_ne!(a, 0);
    assert_ne!(b, 0);
    assert_ne!(a, b);
    assert_eq!(set.len(), 2);
    assert_eq!(set.take(a), Some(10));
    assert!(!set.contains(a));
    assert_eq!(set.take(a), None);
    // A fresh insertion never resurrects a consumed handle.
    let c = set.insert(30);
    assert_ne!(c, a);
    assert_ne!(c, b);
    assert_eq!(set.len(), 2);
}

#[test]
fn binary_builder_consumes_both_handles() {
    let mut state = KernelExpressionVisitorState::new();
    let a = visit_expression_column(&mut state, "x".to_string());
    let b = visit_expression_literal_long(&mut state, 2);
    let lt = visit_expression_lt(&mut state, a, b);
    assert_ne!(lt, 0);
    let root = unwrap_kernel_expression(&mut state, lt).unwrap();
    assert_eq!(root.display(), "Column(x) < 2");
}

#[test]
fn consumed_handle_yields_invalid_both_times() {
    let mut state = KernelExpressionVisitorState::new();
    let a = visit_expression_column(&mut state, "x".to_string());
    let b = visit_expression_literal_long(&mut state, 2);
    let first = visit_expression_binary(&mut state, BinaryOperator::LessThan, a, b);
    assert_ne!(first, 0);
    // Both inputs were consumed: reusing either must fail, twice over, and
    // never reconstruct or alias the original nodes.
    let c = visit_expression_literal_long(&mut state, 3);
    let reuse_once = visit_expression_binary(&mut state, BinaryOperator::LessThan, a, c);
    assert_eq!(reuse_once, 0);
    let d = visit_expression_literal_long(&mut state, 4);
    let reuse_twice = visit_expression_binary(&mut state, BinaryOperator::LessThan, a, d);
    assert_eq!(reuse_twice, 0);
}

#[test]
fn binary_builder_with_equal_handles_is_invalid() {
    let mut state = KernelExpressionVisitorState::new();
    let a = visit_expression_column(&mut state, "x".to_string());
    assert_eq!(visit_expression_binary(&mut state, BinaryOperator::And, a, a), 0);
}

#[test]
fn variadic_and_with_no_valid_children_is_invalid() {
    let mut state = KernelExpressionVisitorState::new();
    assert_eq!(visit_expression_and(&mut state, &vec![]), 0);
    assert_eq!(visit_expression_and(&mut state, &vec![0, 7, 99]), 0);
}

#[test]
fn variadic_and_with_one_child_returns_it_unchanged() {
    let mut state = KernelExpressionVisitorState::new();
    let a = visit_expression_column(&mut state, "x".to_string());
    let result = visit_expression_and(&mut state, &vec![a, 0, a]);
    assert_eq!(result, a);
    // The child is still consumable under its original handle.
    let root = unwrap_kernel_expression(&mut state, result).unwrap();
    assert_eq!(root.display(), "Column(x)");
}

#[test]
fn variadic_and_folds_left_and_skips_invalid_children() {
    let mut state = KernelExpressionVisitorState::new();
    let a = visit_expression_column(&mut state, "a".to_string());
    let b = visit_expression_column(&mut state, "b".to_string());
    let c = visit_expression_column(&mut state, "c".to_string());
    let result = visit_expression_and(&mut state, &vec![a, 42, b, b, c]);
    assert_ne!(result, 0);
    let root = unwrap_kernel_expression(&mut state, result).unwrap();
    assert_eq!(root.display(), "Column(a) AND Column(b) AND Column(c)");
}

#[test]
fn string_literal_builder_wraps_value() {
    let mut state = KernelExpressionVisitorState::new();
    let v = visit_expression_literal_string(&mut state, "hello".to_string());
    let node = unwrap_kernel_expression(&mut state, v).unwrap();
    assert_eq!(node.display(), "'hello'");
}

struct RangePredicate;

impl EnginePredicate for RangePredicate {
    fn visit_predicate(&mut self, state: &mut KernelExpressionVisitorState) -> usize {
        let col = visit_expression_column(state, "score".to_string());
        let lit = visit_expression_literal_long(state, 90);
        visit_expression_lt(state, col, lit)
    }
}

struct BrokenPredicate;

impl EnginePredicate for BrokenPredicate {
    fn visit_predicate(&mut self, _state: &mut KernelExpressionVisitorState) -> usize {
        0
    }
}

#[test]
fn engine_predicate_binding_round_trip() {
    let expr = extract_predicate(&mut RangePredicate).unwrap();
    assert_eq!(expr.display(), "Column(score) < 90");
    assert!(extract_predicate(&mut BrokenPredicate).is_none());
}

#[test]
fn capacity_probe_reports_room_for_fresh_handles() {
    let mut state = KernelExpressionVisitorState::new();
    assert!(state.can_allocate());
    let set: ReferenceSet<u8> = ReferenceSet::new();
    assert!(set.can_insert());
    let _ = visit_expression_column(&mut state, "x".to_string());
    assert!(state.can_allocate());
}
