use deltakernel::expressions::{Expression, Expression as Expr, Scalar, UnaryOperator};

#[test]
fn test_expression_format() {
    let col_ref = Expr::column("x");
    let cases = [
        (col_ref.clone(), "Column(x)"),
        (
            col_ref.clone().eq(Expr::literal(Scalar::Integer(2))),
            "Column(x) = 2",
        ),
        (
            col_ref
                .clone()
                .gt_eq(Expr::literal(Scalar::Integer(2)))
                .and(col_ref.clone().lt_eq(Expr::literal(Scalar::Integer(10)))),
            "Column(x) >= 2 AND Column(x) <= 10",
        ),
        (
            col_ref
                .clone()
                .gt(Expr::literal(Scalar::Integer(2)))
                .or(col_ref.clone().lt(Expr::literal(Scalar::Integer(10)))),
            "(Column(x) > 2 OR Column(x) < 10)",
        ),
        (
            col_ref
                .clone()
                .sub(Expr::literal(Scalar::Integer(4)))
                .lt(Expr::literal(Scalar::Integer(10))),
            "Column(x) - 4 < 10",
        ),
        (
            col_ref
                .clone()
                .add(Expr::literal(Scalar::Integer(4)))
                .div(Expr::literal(Scalar::Integer(10)))
                .mul(Expr::literal(Scalar::Integer(42))),
            "Column(x) + 4 / 10 * 42",
        ),
        (
            col_ref.eq(Expr::literal(Scalar::String("foo".to_string()))),
            "Column(x) = 'foo'",
        ),
    ];

    for (expr, expected) in cases {
        let result = expr.display();
        assert_eq!(result, expected);
    }
}

#[test]
fn display_negative_and_long_literals() {
    assert_eq!(Expr::literal(Scalar::Long(-42)).display(), "-42");
    assert_eq!(Expr::literal(Scalar::Integer(0)).display(), "0");
    assert_eq!(Expr::literal(Scalar::Long(i64::MIN)).display(), "-9223372036854775808");
    assert_eq!(Expr::literal(Scalar::Long(i64::MAX)).display(), "9223372036854775807");
}

#[test]
fn display_unary_operations() {
    let not_expr = Expression::UnaryOperation {
        op: UnaryOperator::Not,
        expr: Box::new(Expr::column("flag")),
    };
    assert_eq!(not_expr.display(), "NOT Column(flag)");
    let is_null = Expression::UnaryOperation {
        op: UnaryOperator::IsNull,
        expr: Box::new(Expr::column("flag")),
    };
    assert_eq!(is_null.display(), "Column(flag) IS NULL");
}

#[test]
fn references_deduplicates_column_names() {
    let expr = Expr::column("x")
        .gt(Expr::literal(Scalar::Integer(1)))
        .and(Expr::column("y").lt(Expr::literal(Scalar::Integer(2))))
        .or(Expr::column("x").eq(Expr::literal(Scalar::Integer(3))));
    let mut refs = expr.references();
    refs.sort();
    assert_eq!(refs, vec!["x".to_string(), "y".to_string()]);
}

#[test]
fn references_of_literal_is_empty() {
    let expr = Expr::literal(Scalar::Integer(7)).add(Expr::literal(Scalar::Integer(8)));
    assert_eq!(expr.references().len(), 0);
}

#[test]
fn references_reaches_unary_operands() {
    let expr = Expression::UnaryOperation {
        op: UnaryOperator::IsNull,
        expr: Box::new(Expr::column("nested")),
    };
    assert_eq!(expr.references(), vec!["nested".to_string()]);
}
