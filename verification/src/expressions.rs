//! The expression value model: scalars, operators, and immutable expression
//! trees, together with their fluent combinators, rendering, and column
//! reference extraction.

use vstd::prelude::*;

verus! {

/// A typed literal value embeddable in an expression.
#[derive(Debug, PartialEq)]
pub enum Scalar {
    /// A 32-bit signed integer.
    Integer(i32),
    /// A 64-bit signed integer.
    Long(i64),
    /// A string value.
    String(String),
}

impl Clone for Scalar {
    /// Clone the scalar; the copy equals the original.
    fn clone(&self) -> (res: Self)
        ensures
            res == *self,
    {
        match self {
            Scalar::Integer(v) => Scalar::Integer(*v),
            Scalar::Long(v) => Scalar::Long(*v),
            Scalar::String(v) => Scalar::String(v.clone()),
        }
    }
}

/// A binary operator of an expression tree, with its canonical display token.
#[derive(Debug, Clone, Copy, PartialEq, Eq, Hash, Structural)]
pub enum BinaryOperator {
    /// Logical conjunction, rendered `AND`.
    And,
    /// Logical disjunction, rendered `OR`.
    Or,
    /// Addition, rendered `+`.
    Plus,
    /// Subtraction, rendered `-`.
    Minus,
    /// Multiplication, rendered `*`.
    Multiply,
    /// Division, rendered `/`.
    Divide,
    /// Strict less-than, rendered `<`.
    LessThan,
    /// Less-than-or-equal, rendered `<=`.
    LessThanOrEqual,
    /// Strict greater-than, rendered `>`.
    GreaterThan,
    /// Greater-than-or-equal, rendered `>=`.
    GreaterThanOrEqual,
    /// Equality, rendered `=`.
    Equal,
    /// Inequality, rendered `!=`.
    NotEqual,
}

/// A unary operator of an expression tree.
#[derive(Debug, Clone, Copy, PartialEq, Eq, Hash, Structural)]
pub enum UnaryOperator {
    /// Logical negation, rendered as a `NOT` prefix.
    Not,
    /// Null test, rendered as an `IS NULL` suffix.
    IsNull,
}

/// A SQL expression: an immutable tree of literals, column references, and
/// unary or binary operations.
///
/// Expressions do not track or validate data types, other than the kind of
/// each literal. It is up to the expression evaluator to validate the
/// expression against a schema and add appropriate casts as required.
#[derive(Debug, PartialEq)]
pub enum Expression {
    /// A literal value.
    Literal(Scalar),
    /// A column reference by name.
    Column(String),
    /// A binary operation over two owned subtrees.
    BinaryOperation {
        /// The operator.
        op: BinaryOperator,
        /// The left operand.
        left: Box<Expression>,
        /// The right operand.
        right: Box<Expression>,
    },
    /// A unary operation over one owned subtree.
    UnaryOperation {
        /// The operator.
        op: UnaryOperator,
        /// The operand.
        expr: Box<Expression>,
    },
}

impl Clone for Expression {
    /// Clone the whole tree; every combinator call owns its operands, so a
    /// caller that wants to reuse a subtree passes a copy, equal to the
    /// original.
    fn clone(&self) -> (res: Self)
        ensures
            res == *self,
        decreases *self,
    {
        match self {
            Expression::Literal(s) => Expression::Literal(s.clone()),
            Expression::Column(name) => Expression::Column(name.clone()),
            Expression::BinaryOperation { op, left, right } => Expression::BinaryOperation {
                op: *op,
                left: Box::new((**left).clone()),
                right: Box::new((**right).clone()),
            },
            Expression::UnaryOperation { op, expr } => Expression::UnaryOperation {
                op: *op,
                expr: Box::new((**expr).clone()),
            },
        }
    }
}

/// The set of distinct column names reachable in an expression tree.
pub open spec fn spec_references(e: Expression) -> Set<Seq<char>>
    decreases e,
{
    match e {
        Expression::Literal(_) => Set::empty(),
        Expression::Column(name) => set![name@],
        Expression::BinaryOperation { left, right, .. } => spec_references(*left).union(
            spec_references(*right),
        ),
        Expression::UnaryOperation { expr, .. } => spec_references(*expr),
    }
}

/// The character for one decimal digit.
pub open spec fn spec_digit_char(d: nat) -> char {
    if d == 0 {
        '0'
    } else if d == 1 {
        '1'
    } else if d == 2 {
        '2'
    } else if d == 3 {
        '3'
    } else if d == 4 {
        '4'
    } else if d == 5 {
        '5'
    } else if d == 6 {
        '6'
    } else if d == 7 {
        '7'
    } else if d == 8 {
        '8'
    } else {
        '9'
    }
}

/// The decimal rendering of a natural number, most significant digit first.
pub open spec fn spec_nat_digits(n: nat) -> Seq<char>
    decreases n,
{
    if n < 10 {
        seq![spec_digit_char(n)]
    } else {
        spec_nat_digits(n / 10) + seq![spec_digit_char(n % 10)]
    }
}

/// The decimal rendering of an integer: a `-` sign for negative values,
/// then the digits of the magnitude.
pub open spec fn spec_int_digits(n: int) -> Seq<char> {
    if n < 0 {
        seq!['-'] + spec_nat_digits((-n) as nat)
    } else {
        spec_nat_digits(n as nat)
    }
}

/// The rendering of a scalar: numerics bare, strings single-quoted.
pub open spec fn spec_display_scalar(s: Scalar) -> Seq<char> {
    match s {
        Scalar::Integer(v) => spec_int_digits(v as int),
        Scalar::Long(v) => spec_int_digits(v as int),
        Scalar::String(v) => seq!['\''] + v@ + seq!['\''],
    }
}

/// The canonical display token of a binary operator.
pub open spec fn spec_binop_token(op: BinaryOperator) -> Seq<char> {
    match op {
        BinaryOperator::And => seq!['A', 'N', 'D'],
        BinaryOperator::Or => seq!['O', 'R'],
        BinaryOperator::Plus => seq!['+'],
        BinaryOperator::Minus => seq!['-'],
        BinaryOperator::Multiply => seq!['*'],
        BinaryOperator::Divide => seq!['/'],
        BinaryOperator::LessThan => seq!['<'],
        BinaryOperator::LessThanOrEqual => seq!['<', '='],
        BinaryOperator::GreaterThan => seq!['>'],
        BinaryOperator::GreaterThanOrEqual => seq!['>', '='],
        BinaryOperator::Equal => seq!['='],
        BinaryOperator::NotEqual => seq!['!', '='],
    }
}

/// The rendering of an expression tree. Binary operations render infix as
/// `left OP right`; the sole exception is `Or`, rendered `(left OR right)`.
/// This printer is display-only and lossy: without full precedence-aware
/// parenthesization, the output is not guaranteed to round-trip through a
/// parser.
pub open spec fn spec_display_expr(e: Expression) -> Seq<char>
    decreases e,
{
    match e {
        Expression::Literal(s) => spec_display_scalar(s),
        Expression::Column(name) => seq!['C', 'o', 'l', 'u', 'm', 'n', '('] + name@ + seq![')'],
        Expression::BinaryOperation { op, left, right } => if op == BinaryOperator::Or {
            seq!['('] + spec_display_expr(*left) + seq![' '] + spec_binop_token(op) + seq![' ']
                + spec_display_expr(*right) + seq![')']
        } else {
            spec_display_expr(*left) + seq![' '] + spec_binop_token(op) + seq![' ']
                + spec_display_expr(*right)
        },
        Expression::UnaryOperation { op, expr } => if op == UnaryOperator::Not {
            seq!['N', 'O', 'T', ' '] + spec_display_expr(*expr)
        } else {
            spec_display_expr(*expr) + seq![' ', 'I', 'S', ' ', 'N', 'U', 'L', 'L']
        },
    }
}

/// One decimal digit as a string slice.
fn digit_str(d: usize) -> (s: &'static str)
    requires
        d < 10,
    ensures
        s@ == seq![spec_digit_char(d as nat)],
{
    let ds = "0123456789";
    proof {
        reveal_strlit("0123456789");
    }
    let r = ds.substring_ascii(d, d + 1);
    proof {
        assert(r@ =~= seq![spec_digit_char(d as nat)]);
    }
    r
}

/// Append the decimal digits of `n` to `out`.
fn push_nat_digits(n: u64, out: &mut String)
    ensures
        final (out)@ == old(out)@ + spec_nat_digits(n as nat),
    decreases n,
{
    if n >= 10 {
        push_nat_digits(n / 10, out);
    }
    let d = (n % 10) as usize;
    out.append(digit_str(d));
    proof {
        assert(out@ =~= old(out)@ + spec_nat_digits(n as nat));
    }
}

/// Append the decimal rendering of a signed 64-bit value to `out`.
fn push_i64_digits(n: i64, out: &mut String)
    ensures
        final (out)@ == old(out)@ + spec_int_digits(n as int),
{
    if n < 0 {
        out.append("-");
        proof {
            reveal_strlit("-");
        }
        let magnitude: u64 = if n == i64::MIN {
            9223372036854775808u64
        } else {
            (-n) as u64
        };
        push_nat_digits(magnitude, out);
        proof {
            assert(out@ =~= old(out)@ + spec_int_digits(n as int));
        }
    } else {
        push_nat_digits(n as u64, out);
    }
}

impl BinaryOperator {
    /// The canonical display token (`AND`, `OR`, `+`, `<=`, ...).
    pub fn display(&self) -> (s: &'static str)
        ensures
            s@ == spec_binop_token(*self),
    {
        match self {
            BinaryOperator::And => {
                proof {
                    reveal_strlit("AND");
                }
                "AND"
            },
            BinaryOperator::Or => {
                proof {
                    reveal_strlit("OR");
                }
                "OR"
            },
            BinaryOperator::Plus => {
                proof {
                    reveal_strlit("+");
                }
                "+"
            },
            BinaryOperator::Minus => {
                proof {
                    reveal_strlit("-");
                }
                "-"
            },
            BinaryOperator::Multiply => {
                proof {
                    reveal_strlit("*");
                }
                "*"
            },
            BinaryOperator::Divide => {
                proof {
                    reveal_strlit("/");
                }
                "/"
            },
            BinaryOperator::LessThan => {
                proof {
                    reveal_strlit("<");
                }
                "<"
            },
            BinaryOperator::LessThanOrEqual => {
                proof {
                    reveal_strlit("<=");
                }
                "<="
            },
            BinaryOperator::GreaterThan => {
                proof {
                    reveal_strlit(">");
                }
                ">"
            },
            BinaryOperator::GreaterThanOrEqual => {
                proof {
                    reveal_strlit(">=");
                }
                ">="
            },
            BinaryOperator::Equal => {
                proof {
                    reveal_strlit("=");
                }
                "="
            },
            BinaryOperator::NotEqual => {
                proof {
                    reveal_strlit("!=");
                }
                "!="
            },
        }
    }
}

impl Scalar {
    /// Render the scalar: numerics bare, strings single-quoted.
    pub fn display(&self) -> (s: String)
        ensures
            s@ == spec_display_scalar(*self),
    {
        let mut out = String::new();
        match self {
            Scalar::Integer(v) => {
                push_i64_digits(*v as i64, &mut out);
            },
            Scalar::Long(v) => {
                push_i64_digits(*v, &mut out);
            },
            Scalar::String(v) => {
                proof {
                    reveal_strlit("'");
                }
                out.append("'");
                out.append(v.as_str());
                out.append("'");
            },
        }
        proof {
            assert(out@ =~= spec_display_scalar(*self));
        }
        out
    }
}

/// Append the rendering of an expression tree to `out`.
fn push_expr(e: &Expression, out: &mut String)
    ensures
        final (out)@ == old(out)@ + spec_display_expr(*e),
    decreases *e,
{
    match e {
        Expression::Literal(s) => {
            let rendered = s.display();
            out.append(rendered.as_str());
        },
        Expression::Column(name) => {
            proof {
                reveal_strlit("Column(");
                reveal_strlit(")");
            }
            out.append("Column(");
            out.append(name.as_str());
            out.append(")");
        },
        Expression::BinaryOperation { op, left, right } => {
            proof {
                reveal_strlit("(");
                reveal_strlit(")");
                reveal_strlit(" ");
            }
            let parenthesize = matches!(op, BinaryOperator::Or);
            if parenthesize {
                out.append("(");
            }
            push_expr(left, out);
            out.append(" ");
            out.append(op.display());
            out.append(" ");
            push_expr(right, out);
            if parenthesize {
                out.append(")");
            }
        },
        Expression::UnaryOperation { op, expr } => {
            match op {
                UnaryOperator::Not => {
                    proof {
                        reveal_strlit("NOT ");
                    }
                    out.append("NOT ");
                    push_expr(expr, out);
                },
                UnaryOperator::IsNull => {
                    proof {
                        reveal_strlit(" IS NULL");
                    }
                    push_expr(expr, out);
                    out.append(" IS NULL");
                },
            }
        },
    }
    proof {
        assert(out@ =~= old(out)@ + spec_display_expr(*e));
    }
}

/// The set of names held by a list of column-name strings.
pub open spec fn spec_column_names(cols: Seq<String>) -> Set<Seq<char>> {
    cols.map_values(|s: String| s@).to_set()
}

/// A name is among `spec_column_names(cols)` exactly when some entry of
/// `cols` spells it.
proof fn lemma_column_names_contains(cols: Seq<String>, n: Seq<char>)
    ensures
        spec_column_names(cols).contains(n) <==> exists|i: int|
            0 <= i < cols.len() && cols[i]@ == n,
{
    if exists|i: int| 0 <= i < cols.len() && cols[i]@ == n {
        let i = choose|i: int| 0 <= i < cols.len() && cols[i]@ == n;
        assert(cols.map_values(|s: String| s@)[i] == n);
        assert(cols.map_values(|s: String| s@).contains(n));
    }
    if spec_column_names(cols).contains(n) {
        let mapped = cols.map_values(|s: String| s@);
        let i = choose|i: int| 0 <= i < mapped.len() && mapped[i] == n;
        assert(cols[i]@ == n);
    }
}

proof fn lemma_column_names_push(cols: Seq<String>, s: String)
    ensures
        spec_column_names(cols.push(s)) == spec_column_names(cols).insert(s@),
{
    assert forall|n: Seq<char>|
        spec_column_names(cols.push(s)).contains(n)
            == spec_column_names(cols).insert(s@).contains(n) by {
        lemma_column_names_contains(cols.push(s), n);
        lemma_column_names_contains(cols, n);
        if spec_column_names(cols).insert(s@).contains(n) {
            if n == s@ {
                assert(cols.push(s)[cols.len() as int]@ == n);
            } else {
                let i = choose|i: int| 0 <= i < cols.len() && cols[i]@ == n;
                assert(cols.push(s)[i]@ == n);
            }
        }
    }
    assert(spec_column_names(cols.push(s)) =~= spec_column_names(cols).insert(s@));
}

/// The number of nodes in an expression tree.
pub open spec fn spec_expr_size(e: Expression) -> nat
    decreases e,
{
    match e {
        Expression::Literal(_) => 1,
        Expression::Column(_) => 1,
        Expression::BinaryOperation { left, right, .. } => 1 + spec_expr_size(*left)
            + spec_expr_size(*right),
        Expression::UnaryOperation { expr, .. } => 1 + spec_expr_size(*expr),
    }
}

/// Total number of nodes below a traversal work stack.
spec fn spec_stack_size(stack: Seq<&Expression>) -> nat
    decreases stack.len(),
{
    if stack.len() == 0 {
        0
    } else {
        spec_stack_size(stack.drop_last()) + spec_expr_size(*stack.last())
    }
}

proof fn lemma_stack_size_push(stack: Seq<&Expression>, e: &Expression)
    ensures
        spec_stack_size(stack.push(e)) == spec_stack_size(stack) + spec_expr_size(*e),
{
    assert(stack.push(e).drop_last() =~= stack);
    assert(stack.push(e).last() == e);
}

/// Union of the reference sets of every tree on a traversal work stack.
spec fn spec_stack_references(stack: Seq<&Expression>) -> Set<Seq<char>>
    decreases stack.len(),
{
    if stack.len() == 0 {
        Set::empty()
    } else {
        spec_stack_references(stack.drop_last()).union(spec_references(*stack.last()))
    }
}

proof fn lemma_stack_references_push(stack: Seq<&Expression>, e: &Expression)
    ensures
        spec_stack_references(stack.push(e)) == spec_stack_references(stack).union(
            spec_references(*e),
        ),
{
    assert(stack.push(e).drop_last() =~= stack);
    assert(stack.push(e).last() == e);
}

/// Whether a name list already spells `name`.
fn contains_name(cols: &Vec<String>, name: &String) -> (r: bool)
    ensures
        r <==> exists|i: int| 0 <= i < cols@.len() && cols@[i]@ == name@,
{
    let mut j: usize = 0;
    while j < cols.len()
        invariant
            j <= cols@.len(),
            forall|k: int| 0 <= k < j ==> cols@[k]@ != name@,
        decreases cols@.len() - j,
    {
        if cols[j].eq(name) {
            return true;
        }
        j = j + 1;
    }
    false
}

impl Expression {
    /// Returns the distinct column names referenced by this expression: every
    /// `Column` name reachable in the tree, each exactly once, and nothing
    /// else. The traversal keeps an explicit work stack, so deep trees do not
    /// overflow the call stack.
    pub fn references(&self) -> (cols: Vec<String>)
        ensures
            spec_column_names(cols@) == spec_references(*self),
            forall|i: int, j: int| 0 <= i < j < cols@.len() ==> cols@[i]@ != cols@[j]@,
    {
        let mut cols: Vec<String> = Vec::new();
        let mut stack: Vec<&Expression> = Vec::new();
        stack.push(self);
        proof {
            lemma_stack_references_push(Seq::empty(), self);
            assert(spec_stack_references(stack@).union(spec_column_names(cols@))
                =~= spec_references(*self));
        }
        while stack.len() > 0
            invariant
                spec_stack_references(stack@).union(spec_column_names(cols@)) == spec_references(
                    *self,
                ),
                forall|i: int, j: int| 0 <= i < j < cols@.len() ==> cols@[i]@ != cols@[j]@,
            decreases spec_stack_size(stack@),
        {
            let ghost prev_stack = stack@;
            let ghost prev_cols = cols@;
            let e = stack.pop().unwrap();
            proof {
                assert(prev_stack.subrange(0, prev_stack.len() - 1) =~= prev_stack.drop_last());
                assert(spec_stack_references(prev_stack) == spec_stack_references(
                    stack@,
                ).union(spec_references(*e)));
                assert(spec_stack_size(prev_stack) == spec_stack_size(stack@) + spec_expr_size(
                    *e,
                ));
            }
            match e {
                Expression::Literal(_) => {
                    proof {
                        assert(spec_stack_references(stack@).union(spec_column_names(cols@))
                            =~= spec_references(*self));
                    }
                },
                Expression::Column(name) => {
                    if !contains_name(&cols, name) {
                        cols.push(name.clone());
                        proof {
                            lemma_column_names_push(prev_cols, *name);
                            lemma_column_names_contains(prev_cols, name@);
                            assert forall|i: int, j: int|
                                0 <= i < j < cols@.len() implies cols@[i]@ != cols@[j]@ by {
                                if j < cols@.len() - 1 {
                                    assert(prev_cols[i]@ != prev_cols[j]@);
                                }
                            }
                        }
                    }
                    proof {
                        lemma_column_names_contains(cols@, name@);
                        assert(spec_column_names(cols@).contains(name@));
                        assert(spec_stack_references(stack@).union(spec_column_names(cols@))
                            =~= spec_references(*self));
                    }
                },
                Expression::BinaryOperation { left, right, .. } => {
                    let ghost mid_stack = stack@;
                    stack.push(&**left);
                    stack.push(&**right);
                    proof {
                        lemma_stack_references_push(mid_stack, &**left);
                        lemma_stack_references_push(mid_stack.push(&**left), &**right);
                        lemma_stack_size_push(mid_stack, &**left);
                        lemma_stack_size_push(mid_stack.push(&**left), &**right);
                        assert(spec_stack_references(stack@).union(spec_column_names(cols@))
                            =~= spec_references(*self));
                    }
                },
                Expression::UnaryOperation { expr, .. } => {
                    let ghost mid_stack = stack@;
                    stack.push(&**expr);
                    proof {
                        lemma_stack_references_push(mid_stack, &**expr);
                        lemma_stack_size_push(mid_stack, &**expr);
                        assert(spec_stack_references(stack@).union(spec_column_names(cols@))
                            =~= spec_references(*self));
                    }
                },
            }
        }
        proof {
            assert(spec_column_names(cols@) =~= spec_references(*self));
        }
        cols
    }

    /// Render the expression as text. `Or` is the only parenthesized
    /// operator; the output is display-only and does not round-trip through
    /// a parser.
    pub fn display(&self) -> (s: String)
        ensures
            s@ == spec_display_expr(*self),
    {
        let mut out = String::new();
        push_expr(self, &mut out);
        proof {
            assert(out@ =~= spec_display_expr(*self));
        }
        out
    }

    /// Create a new expression for a column reference.
    pub fn column(name: &str) -> (e: Self)
        ensures
            e matches Expression::Column(n) && n@ == name@,
    {
        Expression::Column(name.to_owned())
    }

    /// Create a new expression for a literal value.
    pub fn literal(value: Scalar) -> (e: Self)
        ensures
            e == Expression::Literal(value),
    {
        Expression::Literal(value)
    }

    /// Combine two operand subtrees under a binary operator, taking ownership
    /// of both and returning the new root.
    fn binary_op_impl(self, other: Self, op: BinaryOperator) -> (e: Self)
        ensures
            e == (Expression::BinaryOperation {
                op,
                left: Box::new(self),
                right: Box::new(other),
            }),
    {
        Expression::BinaryOperation { op, left: Box::new(self), right: Box::new(other) }
    }

    /// Create a new expression `self = other`.
    pub fn eq(self, other: Self) -> (e: Self)
        ensures
            e == (Expression::BinaryOperation {
                op: BinaryOperator::Equal,
                left: Box::new(self),
                right: Box::new(other),
            }),
    {
        self.binary_op_impl(other, BinaryOperator::Equal)
    }

    /// Create a new expression `self != other`.
    pub fn ne(self, other: Self) -> (e: Self)
        ensures
            e == (Expression::BinaryOperation {
                op: BinaryOperator::NotEqual,
                left: Box::new(self),
                right: Box::new(other),
            }),
    {
        self.binary_op_impl(other, BinaryOperator::NotEqual)
    }

    /// Create a new expression `self < other`.
    pub fn lt(self, other: Self) -> (e: Self)
        ensures
            e == (Expression::BinaryOperation {
                op: BinaryOperator::LessThan,
                left: Box::new(self),
                right: Box::new(other),
            }),
    {
        self.binary_op_impl(other, BinaryOperator::LessThan)
    }

    /// Create a new expression `self > other`.
    pub fn gt(self, other: Self) -> (e: Self)
        ensures
            e == (Expression::BinaryOperation {
                op: BinaryOperator::GreaterThan,
                left: Box::new(self),
                right: Box::new(other),
            }),
    {
        self.binary_op_impl(other, BinaryOperator::GreaterThan)
    }

    /// Create a new expression `self >= other`.
    pub fn gt_eq(self, other: Self) -> (e: Self)
        ensures
            e == (Expression::BinaryOperation {
                op: BinaryOperator::GreaterThanOrEqual,
                left: Box::new(self),
                right: Box::new(other),
            }),
    {
        self.binary_op_impl(other, BinaryOperator::GreaterThanOrEqual)
    }

    /// Create a new expression `self <= other`.
    pub fn lt_eq(self, other: Self) -> (e: Self)
        ensures
            e == (Expression::BinaryOperation {
                op: BinaryOperator::LessThanOrEqual,
                left: Box::new(self),
                right: Box::new(other),
            }),
    {
        self.binary_op_impl(other, BinaryOperator::LessThanOrEqual)
    }

    /// Create a new expression `self AND other`.
    pub fn and(self, other: Self) -> (e: Self)
        ensures
            e == (Expression::BinaryOperation {
                op: BinaryOperator::And,
                left: Box::new(self),
                right: Box::new(other),
            }),
    {
        self.binary_op_impl(other, BinaryOperator::And)
    }

    /// Create a new expression `self OR other`.
    pub fn or(self, other: Self) -> (e: Self)
        ensures
            e == (Expression::BinaryOperation {
                op: BinaryOperator::Or,
                left: Box::new(self),
                right: Box::new(other),
            }),
    {
        self.binary_op_impl(other, BinaryOperator::Or)
    }

    /// Create a new expression `self + other`.
    pub fn add(self, other: Self) -> (e: Self)
        ensures
            e == (Expression::BinaryOperation {
                op: BinaryOperator::Plus,
                left: Box::new(self),
                right: Box::new(other),
            }),
    {
        self.binary_op_impl(other, BinaryOperator::Plus)
    }

    /// Create a new expression `self - other`.
    pub fn sub(self, other: Self) -> (e: Self)
        ensures
            e == (Expression::BinaryOperation {
                op: BinaryOperator::Minus,
                left: Box::new(self),
                right: Box::new(other),
            }),
    {
        self.binary_op_impl(other, BinaryOperator::Minus)
    }

    /// Create a new expression `self * other`.
    pub fn mul(self, other: Self) -> (e: Self)
        ensures
            e == (Expression::BinaryOperation {
                op: BinaryOperator::Multiply,
                left: Box::new(self),
                right: Box::new(other),
            }),
    {
        self.binary_op_impl(other, BinaryOperator::Multiply)
    }

    /// Create a new expression `self / other`.
    pub fn div(self, other: Self) -> (e: Self)
        ensures
            e == (Expression::BinaryOperation {
                op: BinaryOperator::Divide,
                left: Box::new(self),
                right: Box::new(other),
            }),
    {
        self.binary_op_impl(other, BinaryOperator::Divide)
    }
}

} // verus!
