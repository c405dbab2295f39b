//! The data-skipping compiler: turns a row predicate into a conservative
//! file-pruning predicate over per-file min/max column statistics.
//!
//! Compilation is a pure structural analysis of the expression, producing a
//! plan tree (or nothing, when no sound statistics-only predicate can be
//! derived). The plan is then evaluated against a statistics batch, yielding
//! a three-valued raw result per file; a final coercion turns every unknown
//! into "keep", so that a file is excluded only when the statistics prove it
//! cannot match.

use vstd::prelude::*;

use crate::expressions::{BinaryOperator, Expression, Scalar};

verus! {

/// Per-file statistics values for one column, typed like the stored column.
/// An absent entry stands for a file whose statistics payload had no value
/// for this column.
#[derive(Debug, Clone)]
pub enum ColumnStats {
    /// 32-bit signed integer statistics.
    Integer(Vec<Option<i32>>),
    /// 64-bit signed integer statistics.
    Long(Vec<Option<i64>>),
}

impl ColumnStats {
    /// Number of per-file entries.
    pub open spec fn spec_len(self) -> nat {
        match self {
            ColumnStats::Integer(v) => v@.len(),
            ColumnStats::Long(v) => v@.len(),
        }
    }
}

/// One named statistics column.
#[derive(Debug, Clone)]
pub struct StatsColumn {
    /// The logical column name this statistic describes.
    pub name: String,
    /// The per-file values.
    pub values: ColumnStats,
}

/// A statistics batch: the tabular structure handed in by the storage
/// collaborator, with two top-level groups of columns, `min_values` and
/// `max_values`, and one row per file being evaluated.
#[derive(Debug, Clone)]
pub struct ColumnBatch {
    /// Number of files (rows) described by the batch.
    pub num_files: usize,
    /// Per-column minimum values.
    pub min_values: Vec<StatsColumn>,
    /// Per-column maximum values.
    pub max_values: Vec<StatsColumn>,
}

impl ColumnBatch {
    /// Every statistics column carries one entry per file.
    pub open spec fn wf(self) -> bool {
        &&& forall|i: int|
            0 <= i < self.min_values@.len() ==> (#[trigger] self.min_values@[i]).values.spec_len()
                == self.num_files
        &&& forall|i: int|
            0 <= i < self.max_values@.len() ==> (#[trigger] self.max_values@[i]).values.spec_len()
                == self.num_files
    }

    /// Whether every statistics column carries one entry per file. An
    /// embedding that assembled a batch from decoded input tests this
    /// before evaluating against it.
    pub fn consistent(&self) -> (r: bool)
        ensures
            r == self.wf(),
    {
        let ok_min = columns_sized(&self.min_values, self.num_files);
        let ok_max = columns_sized(&self.max_values, self.num_files);
        ok_min && ok_max
    }
}

/// Whether every column in a group holds exactly `n` entries.
fn columns_sized(cols: &Vec<StatsColumn>, n: usize) -> (r: bool)
    ensures
        r == (forall|i: int|
            0 <= i < cols@.len() ==> (#[trigger] cols@[i]).values.spec_len() == n),
{
    let mut j: usize = 0;
    while j < cols.len()
        invariant
            j <= cols@.len(),
            forall|i: int| 0 <= i < j ==> (#[trigger] cols@[i]).values.spec_len() == n,
        decreases cols@.len() - j,
    {
        let len = match &cols[j].values {
            ColumnStats::Integer(v) => v.len(),
            ColumnStats::Long(v) => v.len(),
        };
        if len != n {
            return false;
        }
        j = j + 1;
    }
    true
}

/// A comparison performed by a plan leaf against one statistics column.
#[derive(Debug, Clone, Copy, PartialEq, Eq, Structural)]
pub enum CompareOp {
    /// Statistic strictly below the literal.
    LessThan,
    /// Statistic at most the literal.
    LessThanOrEqual,
    /// Statistic strictly above the literal.
    GreaterThan,
    /// Statistic at least the literal.
    GreaterThanOrEqual,
}

/// A compiled data-skipping plan: a deferred computation that, evaluated
/// against a statistics batch, yields one three-valued result per file.
/// Keeping the plan as a tree of combinator nodes (rather than a one-shot
/// closure) lets one compilation be evaluated against any number of batches.
#[derive(Debug, PartialEq)]
pub enum SkippingPredicate {
    /// Both plans, combined with three-valued AND.
    And(Box<SkippingPredicate>, Box<SkippingPredicate>),
    /// Both plans, combined with three-valued OR.
    Or(Box<SkippingPredicate>, Box<SkippingPredicate>),
    /// `min_values.column OP literal`.
    MinCompare(CompareOp, String, Scalar),
    /// `max_values.column OP literal`.
    MaxCompare(CompareOp, String, Scalar),
    /// `min_values.column <= literal AND literal <= max_values.column`.
    EqualRange(String, Scalar),
}

/// An evaluation failure of a compiled plan: the batch lacks a referenced
/// column, or holds it with an incompatible stored type.
#[derive(Debug, Clone, PartialEq)]
pub enum Error {
    /// The named column is absent from the statistics batch.
    MissingColumn(String),
    /// The named column exists but its stored type does not match the
    /// literal it is compared against.
    UnexpectedColumnType(String),
}

/// Whether a literal kind can take part in a statistics comparison. Only
/// integer and long literals are currently convertible; any other kind makes
/// the enclosing comparison leaf non-convertible.
pub open spec fn spec_literal_supported(s: Scalar) -> bool {
    match s {
        Scalar::Integer(_) => true,
        Scalar::Long(_) => true,
        Scalar::String(_) => false,
    }
}

/// The data-skipping compilation of an expression: `None` when no sound
/// statistics-only predicate can be derived.
///
/// - `AND`: a leg that fails to compile is dropped (that only widens the
///   keep-set); both legs failing fails the node.
/// - `OR`: both legs must compile, else the node fails — dropping one
///   disjunct would wrongly narrow the predicate.
/// - A comparison compiles only in the shape `column OP literal` with a
///   supported literal; `<` and `<=` probe the minimum, `>` and `>=` the
///   maximum, `=` both ends of the range. Every other operator fails.
pub open spec fn spec_compile(e: Expression) -> Option<SkippingPredicate>
    decreases e,
{
    match e {
        Expression::BinaryOperation { op, left, right } => {
            if op == BinaryOperator::And {
                match (spec_compile(*left), spec_compile(*right)) {
                    (Some(l), Some(r)) => Some(
                        SkippingPredicate::And(Box::new(l), Box::new(r)),
                    ),
                    (Some(l), None) => Some(l),
                    (None, Some(r)) => Some(r),
                    (None, None) => None,
                }
            } else if op == BinaryOperator::Or {
                match (spec_compile(*left), spec_compile(*right)) {
                    (Some(l), Some(r)) => Some(SkippingPredicate::Or(Box::new(l), Box::new(r))),
                    _ => None,
                }
            } else {
                match (*left, *right) {
                    (Expression::Column(name), Expression::Literal(lit)) => {
                        if !spec_literal_supported(lit) {
                            None
                        } else if op == BinaryOperator::LessThan {
                            Some(SkippingPredicate::MinCompare(CompareOp::LessThan, name, lit))
                        } else if op == BinaryOperator::LessThanOrEqual {
                            Some(
                                SkippingPredicate::MinCompare(
                                    CompareOp::LessThanOrEqual,
                                    name,
                                    lit,
                                ),
                            )
                        } else if op == BinaryOperator::GreaterThan {
                            Some(SkippingPredicate::MaxCompare(CompareOp::GreaterThan, name, lit))
                        } else if op == BinaryOperator::GreaterThanOrEqual {
                            Some(
                                SkippingPredicate::MaxCompare(
                                    CompareOp::GreaterThanOrEqual,
                                    name,
                                    lit,
                                ),
                            )
                        } else if op == BinaryOperator::Equal {
                            Some(SkippingPredicate::EqualRange(name, lit))
                        } else {
                            None
                        }
                    },
                    _ => None,
                }
            }
        },
        _ => None,
    }
}

/// Three-valued AND over per-file cells: unknown if either side is unknown.
pub open spec fn spec_tvl_and(a: Option<bool>, b: Option<bool>) -> Option<bool> {
    match (a, b) {
        (Some(x), Some(y)) => Some(x && y),
        _ => None,
    }
}

/// Three-valued OR over per-file cells: unknown if either side is unknown.
pub open spec fn spec_tvl_or(a: Option<bool>, b: Option<bool>) -> Option<bool> {
    match (a, b) {
        (Some(x), Some(y)) => Some(x || y),
        _ => None,
    }
}

/// The boolean outcome of one comparison between a statistic and a literal.
pub open spec fn spec_cmp(op: CompareOp, stat: int, lit: int) -> bool {
    match op {
        CompareOp::LessThan => stat < lit,
        CompareOp::LessThanOrEqual => stat <= lit,
        CompareOp::GreaterThan => stat > lit,
        CompareOp::GreaterThanOrEqual => stat >= lit,
    }
}

/// First statistics column of the given name, searched front to back.
pub open spec fn spec_lookup(cols: Seq<StatsColumn>, name: Seq<char>) -> Option<ColumnStats>
    decreases cols.len(),
{
    if cols.len() == 0 {
        None
    } else if cols[0].name@ == name {
        Some(cols[0].values)
    } else {
        spec_lookup(cols.drop_first(), name)
    }
}

/// Evaluation of one comparison leaf against one group of statistics
/// columns: an absent column is a missing-column failure; a column whose
/// stored type does not match the literal is a type failure; otherwise each
/// file yields `Some(comparison)` where a statistic is present and `None`
/// (unknown) where it is null.
pub open spec fn spec_eval_compare(
    cols: Seq<StatsColumn>,
    op: CompareOp,
    name: String,
    lit: Scalar,
    n: nat,
) -> Result<Seq<Option<bool>>, Error> {
    match spec_lookup(cols, name@) {
        None => Err(Error::MissingColumn(name)),
        Some(vals) => match (vals, lit) {
            (ColumnStats::Integer(v), Scalar::Integer(x)) => Ok(
                Seq::new(
                    n,
                    |i: int|
                        match v@[i] {
                            None => None,
                            Some(s) => Some(spec_cmp(op, s as int, x as int)),
                        },
                ),
            ),
            (ColumnStats::Long(v), Scalar::Long(x)) => Ok(
                Seq::new(
                    n,
                    |i: int|
                        match v@[i] {
                            None => None,
                            Some(s) => Some(spec_cmp(op, s as int, x as int)),
                        },
                ),
            ),
            _ => Err(Error::UnexpectedColumnType(name)),
        },
    }
}

/// Evaluation of a plan against a statistics batch: one three-valued cell
/// per file, or the first hard failure, left legs first.
pub open spec fn spec_eval(p: SkippingPredicate, batch: ColumnBatch) -> Result<
    Seq<Option<bool>>,
    Error,
>
    decreases p,
{
    match p {
        SkippingPredicate::And(l, r) => match (spec_eval(*l, batch), spec_eval(*r, batch)) {
            (Err(e), _) => Err(e),
            (_, Err(e)) => Err(e),
            (Ok(a), Ok(b)) => Ok(Seq::new(a.len(), |i: int| spec_tvl_and(a[i], b[i]))),
        },
        SkippingPredicate::Or(l, r) => match (spec_eval(*l, batch), spec_eval(*r, batch)) {
            (Err(e), _) => Err(e),
            (_, Err(e)) => Err(e),
            (Ok(a), Ok(b)) => Ok(Seq::new(a.len(), |i: int| spec_tvl_or(a[i], b[i]))),
        },
        SkippingPredicate::MinCompare(op, name, lit) => spec_eval_compare(
            batch.min_values@,
            op,
            name,
            lit,
            batch.num_files as nat,
        ),
        SkippingPredicate::MaxCompare(op, name, lit) => spec_eval_compare(
            batch.max_values@,
            op,
            name,
            lit,
            batch.num_files as nat,
        ),
        SkippingPredicate::EqualRange(name, lit) => match (
            spec_eval_compare(
                batch.min_values@,
                CompareOp::LessThanOrEqual,
                name,
                lit,
                batch.num_files as nat,
            ),
            spec_eval_compare(
                batch.max_values@,
                CompareOp::GreaterThanOrEqual,
                name,
                lit,
                batch.num_files as nat,
            ),
        ) {
            (Err(e), _) => Err(e),
            (_, Err(e)) => Err(e),
            (Ok(a), Ok(b)) => Ok(Seq::new(a.len(), |i: int| spec_tvl_and(a[i], b[i]))),
        },
    }
}

impl Expression {
    /// Compile this predicate into a data-skipping plan over min/max
    /// statistics, or `None` when no sound statistics-only predicate can be
    /// derived — the caller must then treat every file as "cannot be pruned".
    pub fn extract_metadata_filters(&self) -> (r: Option<SkippingPredicate>)
        ensures
            r == spec_compile(*self),
        decreases *self,
    {
        match self {
            Expression::BinaryOperation { op, left, right } => {
                match op {
                    BinaryOperator::And => {
                        let l = (&**left).extract_metadata_filters();
                        let r = (&**right).extract_metadata_filters();
                        // A leg of the AND that cannot be compiled degenerates
                        // to the other leg.
                        match (l, r) {
                            (Some(l), Some(r)) => Some(
                                SkippingPredicate::And(Box::new(l), Box::new(r)),
                            ),
                            (Some(l), None) => Some(l),
                            (None, Some(r)) => Some(r),
                            (None, None) => None,
                        }
                    },
                    BinaryOperator::Or => {
                        let l = (&**left).extract_metadata_filters();
                        let r = (&**right).extract_metadata_filters();
                        // OR is sound only when both legs are convertible.
                        match (l, r) {
                            (Some(l), Some(r)) => Some(
                                SkippingPredicate::Or(Box::new(l), Box::new(r)),
                            ),
                            _ => None,
                        }
                    },
                    _ => {
                        match (&**left, &**right) {
                            (Expression::Column(name), Expression::Literal(lit)) => {
                                let supported = match lit {
                                    Scalar::Integer(_) => true,
                                    Scalar::Long(_) => true,
                                    Scalar::String(_) => false,
                                };
                                if !supported {
                                    None
                                } else {
                                    match op {
                                        BinaryOperator::LessThan => Some(
                                            SkippingPredicate::MinCompare(
                                                CompareOp::LessThan,
                                                name.clone(),
                                                lit.clone(),
                                            ),
                                        ),
                                        BinaryOperator::LessThanOrEqual => Some(
                                            SkippingPredicate::MinCompare(
                                                CompareOp::LessThanOrEqual,
                                                name.clone(),
                                                lit.clone(),
                                            ),
                                        ),
                                        BinaryOperator::GreaterThan => Some(
                                            SkippingPredicate::MaxCompare(
                                                CompareOp::GreaterThan,
                                                name.clone(),
                                                lit.clone(),
                                            ),
                                        ),
                                        BinaryOperator::GreaterThanOrEqual => Some(
                                            SkippingPredicate::MaxCompare(
                                                CompareOp::GreaterThanOrEqual,
                                                name.clone(),
                                                lit.clone(),
                                            ),
                                        ),
                                        BinaryOperator::Equal => Some(
                                            SkippingPredicate::EqualRange(
                                                name.clone(),
                                                lit.clone(),
                                            ),
                                        ),
                                        _ => None,
                                    }
                                }
                            },
                            _ => None,
                        }
                    },
                }
            },
            _ => None,
        }
    }
}

/// First statistics column of the given name, front to back.
fn find_column<'a>(cols: &'a Vec<StatsColumn>, name: &String) -> (r: Option<&'a StatsColumn>)
    ensures
        match r {
            Some(c) => spec_lookup(cols@, name@) == Some(c.values),
            None => spec_lookup(cols@, name@) is None,
        },
{
    let mut j: usize = 0;
    proof {
        assert(cols@.skip(0) =~= cols@);
    }
    while j < cols.len()
        invariant
            j <= cols@.len(),
            spec_lookup(cols@.skip(j as int), name@) == spec_lookup(cols@, name@),
        decreases cols@.len() - j,
    {
        proof {
            assert(cols@.skip(j as int)[0] == cols@[j as int]);
        }
        if cols[j].name.eq(name) {
            return Some(&cols[j]);
        }
        proof {
            assert(cols@.skip(j as int).drop_first() =~= cols@.skip(j as int + 1));
        }
        j = j + 1;
    }
    proof {
        assert(cols@.skip(j as int).len() == 0);
    }
    None
}

/// One comparison between a present statistic and the literal.
fn cmp_i32(op: CompareOp, stat: i32, lit: i32) -> (r: bool)
    ensures
        r == spec_cmp(op, stat as int, lit as int),
{
    match op {
        CompareOp::LessThan => stat < lit,
        CompareOp::LessThanOrEqual => stat <= lit,
        CompareOp::GreaterThan => stat > lit,
        CompareOp::GreaterThanOrEqual => stat >= lit,
    }
}

/// One comparison between a present statistic and the literal.
fn cmp_i64(op: CompareOp, stat: i64, lit: i64) -> (r: bool)
    ensures
        r == spec_cmp(op, stat as int, lit as int),
{
    match op {
        CompareOp::LessThan => stat < lit,
        CompareOp::LessThanOrEqual => stat <= lit,
        CompareOp::GreaterThan => stat > lit,
        CompareOp::GreaterThanOrEqual => stat >= lit,
    }
}

/// Compare every per-file 32-bit statistic against the literal; null
/// statistics yield unknown.
fn compare_cells_i32(op: CompareOp, v: &Vec<Option<i32>>, lit: i32, n: usize) -> (r: Vec<
    Option<bool>,
>)
    requires
        v@.len() == n,
    ensures
        r@ == Seq::new(
            n as nat,
            |i: int|
                match v@[i] {
                    None => None,
                    Some(s) => Some(spec_cmp(op, s as int, lit as int)),
                },
        ),
{
    let mut out: Vec<Option<bool>> = Vec::new();
    let mut j: usize = 0;
    while j < n
        invariant
            j <= n,
            v@.len() == n,
            out@.len() == j,
            forall|i: int|
                0 <= i < j ==> out@[i] == (match v@[i] {
                    None => None,
                    Some(s) => Some(spec_cmp(op, s as int, lit as int)),
                }),
        decreases n - j,
    {
        let cell = match v[j] {
            None => None,
            Some(s) => Some(cmp_i32(op, s, lit)),
        };
        out.push(cell);
        j = j + 1;
    }
    proof {
        assert(out@ =~= Seq::new(
            n as nat,
            |i: int|
                match v@[i] {
                    None => None,
                    Some(s) => Some(spec_cmp(op, s as int, lit as int)),
                },
        ));
    }
    out
}

/// Compare every per-file 64-bit statistic against the literal; null
/// statistics yield unknown.
fn compare_cells_i64(op: CompareOp, v: &Vec<Option<i64>>, lit: i64, n: usize) -> (r: Vec<
    Option<bool>,
>)
    requires
        v@.len() == n,
    ensures
        r@ == Seq::new(
            n as nat,
            |i: int|
                match v@[i] {
                    None => None,
                    Some(s) => Some(spec_cmp(op, s as int, lit as int)),
                },
        ),
{
    let mut out: Vec<Option<bool>> = Vec::new();
    let mut j: usize = 0;
    while j < n
        invariant
            j <= n,
            v@.len() == n,
            out@.len() == j,
            forall|i: int|
                0 <= i < j ==> out@[i] == (match v@[i] {
                    None => None,
                    Some(s) => Some(spec_cmp(op, s as int, lit as int)),
                }),
        decreases n - j,
    {
        let cell = match v[j] {
            None => None,
            Some(s) => Some(cmp_i64(op, s, lit)),
        };
        out.push(cell);
        j = j + 1;
    }
    proof {
        assert(out@ =~= Seq::new(
            n as nat,
            |i: int|
                match v@[i] {
                    None => None,
                    Some(s) => Some(spec_cmp(op, s as int, lit as int)),
                },
        ));
    }
    out
}

/// Evaluate one comparison leaf against one group of statistics columns.
fn eval_compare(cols: &Vec<StatsColumn>, op: CompareOp, name: &String, lit: &Scalar, n: usize) -> (r:
    Result<Vec<Option<bool>>, Error>)
    requires
        forall|i: int|
            0 <= i < cols@.len() ==> (#[trigger] cols@[i]).values.spec_len() == n,
    ensures
        match (r, spec_eval_compare(cols@, op, *name, *lit, n as nat)) {
            (Ok(m), Ok(s)) => m@ == s,
            (Err(a), Err(b)) => a == b,
            _ => false,
        },
{
    let found = find_column(cols, name);
    match found {
        None => Err(Error::MissingColumn(name.clone())),
        Some(col) => {
            proof {
                lemma_lookup_len(cols@, name@, n as nat);
            }
            match (&col.values, lit) {
                (ColumnStats::Integer(v), Scalar::Integer(x)) => Ok(
                    compare_cells_i32(op, v, *x, n),
                ),
                (ColumnStats::Long(v), Scalar::Long(x)) => Ok(compare_cells_i64(op, v, *x, n)),
                _ => Err(Error::UnexpectedColumnType(name.clone())),
            }
        },
    }
}

/// A column found in a well-formed group carries one entry per file.
proof fn lemma_lookup_len(cols: Seq<StatsColumn>, name: Seq<char>, n: nat)
    requires
        forall|i: int| 0 <= i < cols.len() ==> (#[trigger] cols[i]).values.spec_len() == n,
    ensures
        spec_lookup(cols, name) matches Some(vals) ==> vals.spec_len() == n,
    decreases cols.len(),
{
    if cols.len() > 0 && cols[0].name@ != name {
        lemma_lookup_len(cols.drop_first(), name, n);
    }
}

/// Combine two cell vectors with three-valued AND.
fn combine_and(a: &Vec<Option<bool>>, b: &Vec<Option<bool>>) -> (r: Vec<Option<bool>>)
    requires
        a@.len() == b@.len(),
    ensures
        r@ == Seq::new(a@.len(), |i: int| spec_tvl_and(a@[i], b@[i])),
{
    let mut out: Vec<Option<bool>> = Vec::new();
    let mut j: usize = 0;
    while j < a.len()
        invariant
            j <= a@.len(),
            a@.len() == b@.len(),
            out@.len() == j,
            forall|i: int| 0 <= i < j ==> out@[i] == spec_tvl_and(a@[i], b@[i]),
        decreases a@.len() - j,
    {
        let cell = match (a[j], b[j]) {
            (Some(x), Some(y)) => Some(x && y),
            _ => None,
        };
        out.push(cell);
        j = j + 1;
    }
    proof {
        assert(out@ =~= Seq::new(a@.len(), |i: int| spec_tvl_and(a@[i], b@[i])));
    }
    out
}

/// Combine two cell vectors with three-valued OR.
fn combine_or(a: &Vec<Option<bool>>, b: &Vec<Option<bool>>) -> (r: Vec<Option<bool>>)
    requires
        a@.len() == b@.len(),
    ensures
        r@ == Seq::new(a@.len(), |i: int| spec_tvl_or(a@[i], b@[i])),
{
    let mut out: Vec<Option<bool>> = Vec::new();
    let mut j: usize = 0;
    while j < a.len()
        invariant
            j <= a@.len(),
            a@.len() == b@.len(),
            out@.len() == j,
            forall|i: int| 0 <= i < j ==> out@[i] == spec_tvl_or(a@[i], b@[i]),
        decreases a@.len() - j,
    {
        let cell = match (a[j], b[j]) {
            (Some(x), Some(y)) => Some(x || y),
            _ => None,
        };
        out.push(cell);
        j = j + 1;
    }
    proof {
        assert(out@ =~= Seq::new(a@.len(), |i: int| spec_tvl_or(a@[i], b@[i])));
    }
    out
}

impl SkippingPredicate {
    /// Evaluate this plan against a statistics batch, yielding one
    /// three-valued cell per file — `Some(true)` definitely satisfiable per
    /// the statistics, `Some(false)` definitely not, `None` unknown — or the
    /// first hard failure encountered, left legs first.
    pub fn evaluate(&self, batch: &ColumnBatch) -> (r: Result<Vec<Option<bool>>, Error>)
        requires
            batch.wf(),
        ensures
            match (r, spec_eval(*self, *batch)) {
                (Ok(m), Ok(s)) => m@ == s && m@.len() == batch.num_files,
                (Err(a), Err(b)) => a == b,
                _ => false,
            },
        decreases *self,
    {
        proof {
            lemma_eval_len(*self, *batch);
        }
        match self {
            SkippingPredicate::And(l, r) => {
                let a = match (&**l).evaluate(batch) {
                    Ok(a) => a,
                    Err(e) => {
                        return Err(e);
                    },
                };
                let b = match (&**r).evaluate(batch) {
                    Ok(b) => b,
                    Err(e) => {
                        return Err(e);
                    },
                };
                proof {
                    lemma_eval_len(**l, *batch);
                    lemma_eval_len(**r, *batch);
                }
                Ok(combine_and(&a, &b))
            },
            SkippingPredicate::Or(l, r) => {
                let a = match (&**l).evaluate(batch) {
                    Ok(a) => a,
                    Err(e) => {
                        return Err(e);
                    },
                };
                let b = match (&**r).evaluate(batch) {
                    Ok(b) => b,
                    Err(e) => {
                        return Err(e);
                    },
                };
                proof {
                    lemma_eval_len(**l, *batch);
                    lemma_eval_len(**r, *batch);
                }
                Ok(combine_or(&a, &b))
            },
            SkippingPredicate::MinCompare(op, name, lit) => eval_compare(
                &batch.min_values,
                *op,
                name,
                lit,
                batch.num_files,
            ),
            SkippingPredicate::MaxCompare(op, name, lit) => eval_compare(
                &batch.max_values,
                *op,
                name,
                lit,
                batch.num_files,
            ),
            SkippingPredicate::EqualRange(name, lit) => {
                let a = match eval_compare(
                    &batch.min_values,
                    CompareOp::LessThanOrEqual,
                    name,
                    lit,
                    batch.num_files,
                ) {
                    Ok(a) => a,
                    Err(e) => {
                        return Err(e);
                    },
                };
                let b = match eval_compare(
                    &batch.max_values,
                    CompareOp::GreaterThanOrEqual,
                    name,
                    lit,
                    batch.num_files,
                ) {
                    Ok(b) => b,
                    Err(e) => {
                        return Err(e);
                    },
                };
                Ok(combine_and(&a, &b))
            },
        }
    }
}

/// The keep-mask a raw three-valued result coerces to: a file is kept unless
/// the statistics prove the predicate false — unknown means keep.
pub open spec fn spec_keep_mask(raw: Seq<Option<bool>>) -> Seq<bool> {
    Seq::new(raw.len(), |i: int| raw[i] != Some(false))
}

/// Coerce a raw three-valued result into the final keep-mask: `true`
/// wherever the raw cell is true or unknown, `false` only where it is
/// definitely false.
pub fn keep_mask(raw: &Vec<Option<bool>>) -> (r: Vec<bool>)
    ensures
        r@ == spec_keep_mask(raw@),
{
    let mut out: Vec<bool> = Vec::new();
    let mut j: usize = 0;
    while j < raw.len()
        invariant
            j <= raw@.len(),
            out@.len() == j,
            forall|i: int| 0 <= i < j ==> out@[i] == (raw@[i] != Some(false)),
        decreases raw@.len() - j,
    {
        let keep = match raw[j] {
            Some(false) => false,
            _ => true,
        };
        out.push(keep);
        j = j + 1;
    }
    proof {
        assert(out@ =~= spec_keep_mask(raw@));
    }
    out
}

/// The files whose mask entry is true, in order.
pub open spec fn spec_filter_kept(files: Seq<String>, keep: Seq<bool>) -> Seq<String>
    decreases files.len(),
{
    if files.len() == 0 {
        Seq::empty()
    } else {
        let rest = spec_filter_kept(files.drop_last(), keep.drop_last());
        if keep[files.len() - 1] {
            rest.push(files.last())
        } else {
            rest
        }
    }
}

/// Keep exactly the files whose mask entry is true, preserving order.
pub fn filter_kept(files: &Vec<String>, keep: &Vec<bool>) -> (r: Vec<String>)
    requires
        files@.len() == keep@.len(),
    ensures
        r@ == spec_filter_kept(files@, keep@),
{
    let mut out: Vec<String> = Vec::new();
    let mut j: usize = 0;
    while j < files.len()
        invariant
            j <= files@.len(),
            files@.len() == keep@.len(),
            out@ == spec_filter_kept(files@.take(j as int), keep@.take(j as int)),
        decreases files@.len() - j,
    {
        let ghost prev = out@;
        if keep[j] {
            out.push(files[j].clone());
        }
        proof {
            let fj = files@.take(j as int + 1);
            let kj = keep@.take(j as int + 1);
            assert(fj.drop_last() =~= files@.take(j as int));
            assert(kj.drop_last() =~= keep@.take(j as int));
            assert(fj.last() == files@[j as int]);
            assert(out@ =~= spec_filter_kept(fj, kj));
        }
        j = j + 1;
    }
    proof {
        assert(files@.take(files@.len() as int) =~= files@);
        assert(keep@.take(keep@.len() as int) =~= keep@);
    }
    out
}

/// Prune a file list with a predicate and the statistics batch describing
/// those files, one row per file.
///
/// When the predicate has no sound statistics form, pruning is skipped
/// entirely and every file proceeds to physical read. Otherwise the compiled
/// plan is evaluated; a hard evaluation failure is reported as is, and a
/// successful evaluation keeps exactly the files whose statistics do not
/// rule the predicate out.
pub fn data_skipping_filter(files: &Vec<String>, predicate: &Expression, stats: &ColumnBatch) -> (r:
    Result<Vec<String>, Error>)
    requires
        stats.wf(),
        files@.len() == stats.num_files,
    ensures
        match spec_compile(*predicate) {
            None => r matches Ok(kept) && kept@ == files@,
            Some(p) => match spec_eval(p, *stats) {
                Ok(raw) => r matches Ok(kept) && kept@ == spec_filter_kept(
                    files@,
                    spec_keep_mask(raw),
                ),
                Err(e) => r == Err::<Vec<String>, Error>(e),
            },
        },
{
    let plan = match predicate.extract_metadata_filters() {
        Some(plan) => plan,
        None => {
            return Ok(clone_files(files));
        },
    };
    let raw = match plan.evaluate(stats) {
        Ok(raw) => raw,
        Err(e) => {
            return Err(e);
        },
    };
    let keep = keep_mask(&raw);
    Ok(filter_kept(files, &keep))
}

/// An order-preserving copy of the file list.
fn clone_files(files: &Vec<String>) -> (r: Vec<String>)
    ensures
        r@ == files@,
{
    let mut out: Vec<String> = Vec::new();
    let mut j: usize = 0;
    while j < files.len()
        invariant
            j <= files@.len(),
            out@.len() == j,
            forall|i: int| 0 <= i < j ==> out@[i] == files@[i],
        decreases files@.len() - j,
    {
        out.push(files[j].clone());
        j = j + 1;
    }
    proof {
        assert(out@ =~= files@);
    }
    out
}

/// Degradation law: in `AND(a, b)` where `a` compiles and `b` does not, the
/// unprovable conjunct is dropped, and the conjunction compiles exactly as
/// `a` alone does.
pub proof fn lemma_compile_and_degradation(a: Expression, b: Expression)
    requires
        spec_compile(a) is Some,
        spec_compile(b) is None,
    ensures
        spec_compile(
            (Expression::BinaryOperation {
                op: BinaryOperator::And,
                left: Box::new(a),
                right: Box::new(b),
            }),
        ) == spec_compile(a),
{
}

/// OR compiles only when both disjuncts do: if either leg alone has no
/// sound statistics form, neither has the disjunction.
pub proof fn lemma_compile_or_none(a: Expression, b: Expression)
    requires
        spec_compile(a) is None || spec_compile(b) is None,
    ensures
        spec_compile(
            (Expression::BinaryOperation {
                op: BinaryOperator::Or,
                left: Box::new(a),
                right: Box::new(b),
            }),
        ) is None,
{
}

/// Range pruning law for `column = literal` over 64-bit statistics: a file
/// whose `[min, max]` range excludes the literal is pruned, a file whose
/// range contains it is kept, and a file with null statistics at either end
/// is kept.
pub proof fn lemma_equal_range_keeps_long(
    name: String,
    x: i64,
    batch: ColumnBatch,
    i: int,
    minv: Vec<Option<i64>>,
    maxv: Vec<Option<i64>>,
)
    requires
        batch.wf(),
        spec_lookup(batch.min_values@, name@) == Some(ColumnStats::Long(minv)),
        spec_lookup(batch.max_values@, name@) == Some(ColumnStats::Long(maxv)),
        0 <= i < batch.num_files,
    ensures
        spec_eval(SkippingPredicate::EqualRange(name, Scalar::Long(x)), batch) matches Ok(raw)
            && spec_keep_mask(raw)[i] == (match (minv@[i], maxv@[i]) {
            (Some(mn), Some(mx)) => mn <= x && x <= mx,
            _ => true,
        }),
{
    lemma_lookup_len(batch.min_values@, name@, batch.num_files as nat);
    lemma_lookup_len(batch.max_values@, name@, batch.num_files as nat);
}

/// Range pruning law for `column = literal` over 32-bit statistics: a file
/// whose `[min, max]` range excludes the literal is pruned, a file whose
/// range contains it is kept, and a file with null statistics at either end
/// is kept.
pub proof fn lemma_equal_range_keeps_integer(
    name: String,
    x: i32,
    batch: ColumnBatch,
    i: int,
    minv: Vec<Option<i32>>,
    maxv: Vec<Option<i32>>,
)
    requires
        batch.wf(),
        spec_lookup(batch.min_values@, name@) == Some(ColumnStats::Integer(minv)),
        spec_lookup(batch.max_values@, name@) == Some(ColumnStats::Integer(maxv)),
        0 <= i < batch.num_files,
    ensures
        spec_eval(SkippingPredicate::EqualRange(name, Scalar::Integer(x)), batch) matches Ok(raw)
            && spec_keep_mask(raw)[i] == (match (minv@[i], maxv@[i]) {
            (Some(mn), Some(mx)) => mn <= x && x <= mx,
            _ => true,
        }),
{
    lemma_lookup_len(batch.min_values@, name@, batch.num_files as nat);
    lemma_lookup_len(batch.max_values@, name@, batch.num_files as nat);
}

/// The comparison operator a plan leaf performs, as the expression-level
/// operator it was compiled from.
pub open spec fn spec_compare_binop(op: CompareOp) -> BinaryOperator {
    match op {
        CompareOp::LessThan => BinaryOperator::LessThan,
        CompareOp::LessThanOrEqual => BinaryOperator::LessThanOrEqual,
        CompareOp::GreaterThan => BinaryOperator::GreaterThan,
        CompareOp::GreaterThanOrEqual => BinaryOperator::GreaterThanOrEqual,
    }
}

/// One comparison over integers, by expression-level operator. Operators
/// that are no comparison are treated as satisfiable.
pub open spec fn spec_cmp_scalar_int(op: BinaryOperator, x: int, y: int) -> bool {
    match op {
        BinaryOperator::LessThan => x < y,
        BinaryOperator::LessThanOrEqual => x <= y,
        BinaryOperator::GreaterThan => x > y,
        BinaryOperator::GreaterThanOrEqual => x >= y,
        BinaryOperator::Equal => x == y,
        BinaryOperator::NotEqual => x != y,
        _ => true,
    }
}

/// Whether one comparison holds of a row's value. A comparison the
/// statistics machinery cannot interpret — operands of mismatched or
/// non-numeric kinds — is treated as satisfiable, so that pruning can never
/// rule a file out on its account.
pub open spec fn spec_row_cmp(op: BinaryOperator, v: Scalar, lit: Scalar) -> bool {
    match (v, lit) {
        (Scalar::Integer(x), Scalar::Integer(y)) => spec_cmp_scalar_int(op, x as int, y as int),
        (Scalar::Long(x), Scalar::Long(y)) => spec_cmp_scalar_int(op, x as int, y as int),
        _ => true,
    }
}

/// Row-level satisfaction of a predicate, for conservative-soundness
/// reasoning: a row assigns one scalar per column name; `AND` and `OR` are
/// the usual connectives; a comparison `column OP literal` compares the
/// row's value; and every form the compiler cannot convert — other
/// operators, other shapes, unary operations, bare leaves — is treated as
/// satisfiable, the reading under which pruning must never lose a file.
pub open spec fn spec_row_sat(e: Expression, row: Map<Seq<char>, Scalar>) -> bool
    decreases e,
{
    match e {
        Expression::BinaryOperation { op, left, right } => {
            if op == BinaryOperator::And {
                spec_row_sat(*left, row) && spec_row_sat(*right, row)
            } else if op == BinaryOperator::Or {
                spec_row_sat(*left, row) || spec_row_sat(*right, row)
            } else {
                match (*left, *right) {
                    (Expression::Column(name), Expression::Literal(lit)) => spec_row_cmp(
                        op,
                        row[name@],
                        lit,
                    ),
                    _ => true,
                }
            }
        },
        _ => true,
    }
}

/// Row-level satisfaction of a compiled plan: each leaf performs the
/// comparison it was compiled from against the row's value.
pub open spec fn spec_plan_row_sat(p: SkippingPredicate, row: Map<Seq<char>, Scalar>) -> bool
    decreases p,
{
    match p {
        SkippingPredicate::And(l, r) => spec_plan_row_sat(*l, row) && spec_plan_row_sat(*r, row),
        SkippingPredicate::Or(l, r) => spec_plan_row_sat(*l, row) || spec_plan_row_sat(*r, row),
        SkippingPredicate::MinCompare(op, name, lit) => spec_row_cmp(
            spec_compare_binop(op),
            row[name@],
            lit,
        ),
        SkippingPredicate::MaxCompare(op, name, lit) => spec_row_cmp(
            spec_compare_binop(op),
            row[name@],
            lit,
        ),
        SkippingPredicate::EqualRange(name, lit) => spec_row_cmp(
            BinaryOperator::Equal,
            row[name@],
            lit,
        ),
    }
}

/// Whether a row's value for one column sits at or above the recorded
/// minimum in one cell of a statistics column: a null cell constrains
/// nothing; wherever a statistic is recorded, the row's value must carry
/// the column's stored type and respect the bound.
pub open spec fn spec_cell_admits_min(stats: Option<ColumnStats>, i: int, v: Scalar) -> bool {
    match stats {
        None => true,
        Some(ColumnStats::Integer(cells)) => match (cells@[i], v) {
            (Some(mn), Scalar::Integer(x)) => mn <= x,
            (None, Scalar::Integer(_)) => true,
            _ => false,
        },
        Some(ColumnStats::Long(cells)) => match (cells@[i], v) {
            (Some(mn), Scalar::Long(x)) => mn <= x,
            (None, Scalar::Long(_)) => true,
            _ => false,
        },
    }
}

/// Whether a row's value for one column sits at or below the recorded
/// maximum in one cell of a statistics column; as with the minimum, a null
/// cell constrains nothing.
pub open spec fn spec_cell_admits_max(stats: Option<ColumnStats>, i: int, v: Scalar) -> bool {
    match stats {
        None => true,
        Some(ColumnStats::Integer(cells)) => match (cells@[i], v) {
            (Some(mx), Scalar::Integer(x)) => x <= mx,
            (None, Scalar::Integer(_)) => true,
            _ => false,
        },
        Some(ColumnStats::Long(cells)) => match (cells@[i], v) {
            (Some(mx), Scalar::Long(x)) => x <= mx,
            (None, Scalar::Long(_)) => true,
            _ => false,
        },
    }
}

/// Whether file `i`'s statistics are truthful of a row: for every column
/// the batch records, the row's value lies between that file's recorded
/// minimum and maximum.
pub open spec fn spec_row_admitted(row: Map<Seq<char>, Scalar>, batch: ColumnBatch, i: int) -> bool {
    &&& forall|name: Seq<char>|
        spec_cell_admits_min(spec_lookup(batch.min_values@, name), i, #[trigger] row[name])
    &&& forall|name: Seq<char>|
        spec_cell_admits_max(spec_lookup(batch.max_values@, name), i, #[trigger] row[name])
}

/// A minimum-side comparison leaf never votes to exclude a file whose
/// statistics admit a row satisfying the comparison.
proof fn lemma_min_compare_conservative(
    cols: Seq<StatsColumn>,
    op: CompareOp,
    name: String,
    lit: Scalar,
    n: nat,
    i: int,
    v: Scalar,
)
    requires
        0 <= i < n,
        op == CompareOp::LessThan || op == CompareOp::LessThanOrEqual,
        spec_eval_compare(cols, op, name, lit, n) is Ok,
        spec_cell_admits_min(spec_lookup(cols, name@), i, v),
        spec_row_cmp(spec_compare_binop(op), v, lit),
    ensures
        spec_eval_compare(cols, op, name, lit, n) matches Ok(raw) ==> raw[i] != Some(false),
{
}

/// A maximum-side comparison leaf never votes to exclude a file whose
/// statistics admit a row satisfying the comparison.
proof fn lemma_max_compare_conservative(
    cols: Seq<StatsColumn>,
    op: CompareOp,
    name: String,
    lit: Scalar,
    n: nat,
    i: int,
    v: Scalar,
)
    requires
        0 <= i < n,
        op == CompareOp::GreaterThan || op == CompareOp::GreaterThanOrEqual,
        spec_eval_compare(cols, op, name, lit, n) is Ok,
        spec_cell_admits_max(spec_lookup(cols, name@), i, v),
        spec_row_cmp(spec_compare_binop(op), v, lit),
    ensures
        spec_eval_compare(cols, op, name, lit, n) matches Ok(raw) ==> raw[i] != Some(false),
{
}

/// The shape of plan the compiler produces: minimum-side leaves probe with
/// `<` or `<=`, maximum-side leaves with `>` or `>=`.
pub open spec fn spec_plan_wf(p: SkippingPredicate) -> bool
    decreases p,
{
    match p {
        SkippingPredicate::And(l, r) => spec_plan_wf(*l) && spec_plan_wf(*r),
        SkippingPredicate::Or(l, r) => spec_plan_wf(*l) && spec_plan_wf(*r),
        SkippingPredicate::MinCompare(op, _, _) => op == CompareOp::LessThan || op
            == CompareOp::LessThanOrEqual,
        SkippingPredicate::MaxCompare(op, _, _) => op == CompareOp::GreaterThan || op
            == CompareOp::GreaterThanOrEqual,
        SkippingPredicate::EqualRange(_, _) => true,
    }
}

/// Every plan the compiler emits has that shape.
pub proof fn lemma_compile_wf(e: Expression)
    ensures
        spec_compile(e) matches Some(p) ==> spec_plan_wf(p),
    decreases e,
{
    match e {
        Expression::BinaryOperation { op, left, right } => {
            lemma_compile_wf(*left);
            lemma_compile_wf(*right);
        },
        _ => {},
    }
}

/// A plan's raw cell never votes to exclude a file whose statistics admit a
/// row satisfying the plan.
proof fn lemma_plan_conservative(
    p: SkippingPredicate,
    batch: ColumnBatch,
    row: Map<Seq<char>, Scalar>,
    i: int,
)
    requires
        0 <= i < batch.num_files,
        spec_plan_wf(p),
        spec_eval(p, batch) is Ok,
        spec_row_admitted(row, batch, i),
        spec_plan_row_sat(p, row),
    ensures
        spec_eval(p, batch) matches Ok(raw) ==> raw[i] != Some(false),
    decreases p,
{
    match p {
        SkippingPredicate::And(l, r) => {
            lemma_plan_conservative(*l, batch, row, i);
            lemma_plan_conservative(*r, batch, row, i);
            lemma_eval_len(*l, batch);
            lemma_eval_len(*r, batch);
        },
        SkippingPredicate::Or(l, r) => {
            if spec_plan_row_sat(*l, row) {
                lemma_plan_conservative(*l, batch, row, i);
            } else {
                lemma_plan_conservative(*r, batch, row, i);
            }
            lemma_eval_len(*l, batch);
            lemma_eval_len(*r, batch);
        },
        SkippingPredicate::MinCompare(op, name, lit) => {
            lemma_min_compare_conservative(
                batch.min_values@,
                op,
                name,
                lit,
                batch.num_files as nat,
                i,
                row[name@],
            );
        },
        SkippingPredicate::MaxCompare(op, name, lit) => {
            lemma_max_compare_conservative(
                batch.max_values@,
                op,
                name,
                lit,
                batch.num_files as nat,
                i,
                row[name@],
            );
        },
        SkippingPredicate::EqualRange(name, lit) => {
            let v = row[name@];
            assert(spec_row_cmp(BinaryOperator::LessThanOrEqual, v, lit));
            assert(spec_row_cmp(BinaryOperator::GreaterThanOrEqual, v, lit));
            lemma_min_compare_conservative(
                batch.min_values@,
                CompareOp::LessThanOrEqual,
                name,
                lit,
                batch.num_files as nat,
                i,
                v,
            );
            lemma_max_compare_conservative(
                batch.max_values@,
                CompareOp::GreaterThanOrEqual,
                name,
                lit,
                batch.num_files as nat,
                i,
                v,
            );
        },
    }
}

/// Compilation preserves row-level satisfaction: a row satisfying the
/// predicate satisfies whatever plan the predicate compiles to. Dropping an
/// unprovable conjunct of an `AND` only weakens the plan, so the direction
/// needed for soundness survives.
proof fn lemma_compile_preserves_sat(e: Expression, row: Map<Seq<char>, Scalar>)
    requires
        spec_compile(e) is Some,
        spec_row_sat(e, row),
    ensures
        spec_compile(e) matches Some(p) ==> spec_plan_row_sat(p, row),
    decreases e,
{
    match e {
        Expression::BinaryOperation { op, left, right } => {
            if op == BinaryOperator::And {
                match (spec_compile(*left), spec_compile(*right)) {
                    (Some(_), Some(_)) => {
                        lemma_compile_preserves_sat(*left, row);
                        lemma_compile_preserves_sat(*right, row);
                    },
                    (Some(_), None) => {
                        lemma_compile_preserves_sat(*left, row);
                    },
                    (None, Some(_)) => {
                        lemma_compile_preserves_sat(*right, row);
                    },
                    (None, None) => {},
                }
            } else if op == BinaryOperator::Or {
                if spec_row_sat(*left, row) {
                    lemma_compile_preserves_sat(*left, row);
                } else {
                    lemma_compile_preserves_sat(*right, row);
                }
            }
        },
        _ => {},
    }
}

/// Conservative soundness of data skipping: pruning may keep files that
/// hold no matching row, but it never excludes a file that could hold one.
/// Whenever the predicate compiles and the plan evaluates, any file whose
/// statistics are truthful of some row satisfying the predicate keeps a
/// true entry in the final mask.
pub proof fn lemma_data_skipping_conservative(
    e: Expression,
    batch: ColumnBatch,
    row: Map<Seq<char>, Scalar>,
    i: int,
)
    requires
        0 <= i < batch.num_files,
        spec_row_admitted(row, batch, i),
        spec_row_sat(e, row),
    ensures
        match spec_compile(e) {
            Some(p) => match spec_eval(p, batch) {
                Ok(raw) => spec_keep_mask(raw)[i],
                Err(_) => true,
            },
            None => true,
        },
{
    match spec_compile(e) {
        Some(p) => {
            lemma_compile_preserves_sat(e, row);
            lemma_compile_wf(e);
            match spec_eval(p, batch) {
                Ok(raw) => {
                    lemma_plan_conservative(p, batch, row, i);
                    lemma_eval_len(p, batch);
                },
                Err(_) => {},
            }
        },
        None => {},
    }
}

/// A successful evaluation yields exactly one cell per file.
pub proof fn lemma_eval_len(p: SkippingPredicate, batch: ColumnBatch)
    ensures
        spec_eval(p, batch) matches Ok(raw) ==> raw.len() == batch.num_files,
    decreases p,
{
    match p {
        SkippingPredicate::And(l, r) => {
            lemma_eval_len(*l, batch);
            lemma_eval_len(*r, batch);
        },
        SkippingPredicate::Or(l, r) => {
            lemma_eval_len(*l, batch);
            lemma_eval_len(*r, batch);
        },
        _ => {},
    }
}

} // verus!
