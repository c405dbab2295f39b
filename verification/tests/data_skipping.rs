use deltakernel::data_skipping::{
    data_skipping_filter, keep_mask, ColumnBatch, ColumnStats, CompareOp, Error,
    SkippingPredicate, StatsColumn,
};
use deltakernel::expressions::{Expression as Expr, Scalar};

fn long_batch(min: Vec<Option<i64>>, max: Vec<Option<i64>>) -> ColumnBatch {
    let n = min.len();
    assert_eq!(n, max.len());
    ColumnBatch {
        num_files: n,
        min_values: vec![StatsColumn {
            name: "x".to_string(),
            values: ColumnStats::Long(min),
        }],
        max_values: vec![StatsColumn {
            name: "x".to_string(),
            values: ColumnStats::Long(max),
        }],
    }
}

#[test]
fn end_to_end_less_than_keeps_matching_file() {
    // One file with minValues.x = 5, maxValues.x = 15.
    let batch = long_batch(vec![Some(5)], vec![Some(15)]);

    let lt = Expr::column("x").lt(Expr::literal(Scalar::Long(10)));
    let plan = lt.extract_metadata_filters().unwrap();
    let raw = plan.evaluate(&batch).unwrap();
    assert_eq!(keep_mask(&raw), vec![true]);

    let gt = Expr::column("x").gt(Expr::literal(Scalar::Long(20)));
    let plan = gt.extract_metadata_filters().unwrap();
    let raw = plan.evaluate(&batch).unwrap();
    assert_eq!(keep_mask(&raw), vec![false]);
}

#[test]
fn equality_prunes_by_range() {
    // Three files: range excludes 7, range contains 7, stats are null.
    let batch = long_batch(
        vec![Some(10), Some(5), None],
        vec![Some(20), Some(9), None],
    );
    let eq = Expr::column("x").eq(Expr::literal(Scalar::Long(7)));
    let plan = eq.extract_metadata_filters().unwrap();
    let raw = plan.evaluate(&batch).unwrap();
    assert_eq!(keep_mask(&raw), vec![false, true, true]);
}

#[test]
fn and_degrades_to_compilable_leg() {
    let a = Expr::column("x").lt(Expr::literal(Scalar::Long(10)));
    // `!=` is not convertible, so this leg compiles to nothing.
    let b = Expr::column("x").ne(Expr::literal(Scalar::Long(3)));
    let both = a.clone().and(b);
    assert_eq!(both.extract_metadata_filters(), a.extract_metadata_filters());
    assert_eq!(
        a.extract_metadata_filters(),
        Some(SkippingPredicate::MinCompare(
            CompareOp::LessThan,
            "x".to_string(),
            Scalar::Long(10),
        )),
    );
}

#[test]
fn or_fails_when_either_leg_fails() {
    let a = Expr::column("x").lt(Expr::literal(Scalar::Long(10)));
    let b = Expr::column("x").ne(Expr::literal(Scalar::Long(3)));
    assert_eq!(a.clone().or(b.clone()).extract_metadata_filters(), None);
    assert_eq!(b.clone().or(a).extract_metadata_filters(), None);
    assert_eq!(b.clone().or(b).extract_metadata_filters(), None);
}

#[test]
fn unsupported_shapes_do_not_compile() {
    // Not `column OP literal`.
    let lit_first = Expr::literal(Scalar::Long(1)).lt(Expr::column("x"));
    assert_eq!(lit_first.extract_metadata_filters(), None);
    // String literals are not convertible.
    let string_lit = Expr::column("x").eq(Expr::literal(Scalar::String("a".to_string())));
    assert_eq!(string_lit.extract_metadata_filters(), None);
    // Arithmetic operators are not convertible.
    let arith = Expr::column("x").add(Expr::literal(Scalar::Long(1)));
    assert_eq!(arith.extract_metadata_filters(), None);
    // A bare column reference is not convertible.
    assert_eq!(Expr::column("x").extract_metadata_filters(), None);
}

#[test]
fn missing_column_is_a_hard_failure() {
    let batch = long_batch(vec![Some(1)], vec![Some(2)]);
    let pred = Expr::column("y").lt(Expr::literal(Scalar::Long(10)));
    let plan = pred.extract_metadata_filters().unwrap();
    assert_eq!(plan.evaluate(&batch), Err(Error::MissingColumn("y".to_string())));
}

#[test]
fn mismatched_column_type_is_a_hard_failure() {
    // The stored statistics are longs; an integer literal does not match.
    let batch = long_batch(vec![Some(1)], vec![Some(2)]);
    let pred = Expr::column("x").lt(Expr::literal(Scalar::Integer(10)));
    let plan = pred.extract_metadata_filters().unwrap();
    assert_eq!(
        plan.evaluate(&batch),
        Err(Error::UnexpectedColumnType("x".to_string())),
    );
}

#[test]
fn integer_statistics_compare_as_integers() {
    let batch = ColumnBatch {
        num_files: 2,
        min_values: vec![StatsColumn {
            name: "n".to_string(),
            values: ColumnStats::Integer(vec![Some(3), Some(30)]),
        }],
        max_values: vec![StatsColumn {
            name: "n".to_string(),
            values: ColumnStats::Integer(vec![Some(8), Some(40)]),
        }],
    };
    let pred = Expr::column("n").lt_eq(Expr::literal(Scalar::Integer(5)));
    let plan = pred.extract_metadata_filters().unwrap();
    let raw = plan.evaluate(&batch).unwrap();
    assert_eq!(keep_mask(&raw), vec![true, false]);
}

#[test]
fn keep_mask_coerces_unknown_to_keep() {
    let raw = vec![Some(true), Some(false), None];
    assert_eq!(keep_mask(&raw), vec![true, false, true]);
}

#[test]
fn filter_prunes_file_list() {
    let batch = long_batch(vec![Some(5), Some(50)], vec![Some(15), Some(60)]);
    let files = vec!["part-0".to_string(), "part-1".to_string()];
    let pred = Expr::column("x").lt(Expr::literal(Scalar::Long(10)));
    let kept = data_skipping_filter(&files, &pred, &batch).unwrap();
    assert_eq!(kept, vec!["part-0".to_string()]);
}

#[test]
fn filter_keeps_everything_when_not_convertible() {
    let batch = long_batch(vec![Some(5)], vec![Some(15)]);
    let files = vec!["part-0".to_string()];
    let pred = Expr::column("x").ne(Expr::literal(Scalar::Long(10)));
    let kept = data_skipping_filter(&files, &pred, &batch).unwrap();
    assert_eq!(kept, files);
}

#[test]
fn three_valued_and_or_combine_per_file() {
    let batch = ColumnBatch {
        num_files: 2,
        min_values: vec![
            StatsColumn {
                name: "x".to_string(),
                values: ColumnStats::Long(vec![Some(5), None]),
            },
            StatsColumn {
                name: "y".to_string(),
                values: ColumnStats::Long(vec![Some(100), Some(100)]),
            },
        ],
        max_values: vec![
            StatsColumn {
                name: "x".to_string(),
                values: ColumnStats::Long(vec![Some(15), None]),
            },
            StatsColumn {
                name: "y".to_string(),
                values: ColumnStats::Long(vec![Some(200), Some(200)]),
            },
        ],
    };
    // x < 10 is true for the first file, unknown for the second;
    // y < 10 is false for both.
    let pred = Expr::column("x")
        .lt(Expr::literal(Scalar::Long(10)))
        .or(Expr::column("y").lt(Expr::literal(Scalar::Long(10))));
    let plan = pred.extract_metadata_filters().unwrap();
    let raw = plan.evaluate(&batch).unwrap();
    assert_eq!(raw, vec![Some(true), None]);
    assert_eq!(keep_mask(&raw), vec![true, true]);
}

#[test]
fn consistency_check_detects_short_columns() {
    let good = long_batch(vec![Some(1), Some(2)], vec![Some(3), Some(4)]);
    assert!(good.consistent());
    let bad = ColumnBatch {
        num_files: 2,
        min_values: vec![StatsColumn {
            name: "x".to_string(),
            values: ColumnStats::Long(vec![Some(1)]),
        }],
        max_values: vec![],
    };
    assert!(!bad.consistent());
}
