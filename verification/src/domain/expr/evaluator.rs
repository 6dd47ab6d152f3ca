use vstd::prelude::*;

use crate::domain::expr::binary_op::BinaryOp;
use crate::domain::expr::expr::Expr;
use crate::domain::id::ColumnId;
use crate::domain::schema::sql_column::ColumnDef;
use crate::domain::schema::sql_schema::{position_of_id, Schema};
use crate::domain::sql_row::Row;
use crate::domain::types::arithmetic::{
    int_result, arith_fails, arith_outcome, arith_post, int_overflows, is_zero_divisor, kind_error_message,
    zero_division_message, ArithOp, ArithOutcome,
};
use crate::domain::types::ordering::{
    lemma_order_antisymmetric, reverse_order, float_operand, is_order_of, needs_float_order, spec_eq, spec_gt, spec_gteq, spec_lt,
    spec_lteq, value_order, Comparison, FloatOperand, ValueOrder,
};
use crate::domain::types::sql_type::{spec_and, spec_not, spec_or, SqlBool};
use crate::domain::types::sql_value::{
    is_truth_error, same_value, spec_truth, spec_value_of_bool, truth_error_message, SqlValue,
};
use crate::error::DomainError;
use crate::text::{nat_digits, u64_to_decimal};

verus! {

/// The arithmetic operator that a binary operator stands for, if any.
pub open spec fn arith_op_of(op: BinaryOp) -> Option<ArithOp> {
    match op {
        BinaryOp::Add => Some(ArithOp::Add),
        BinaryOp::Sub => Some(ArithOp::Sub),
        BinaryOp::Mul => Some(ArithOp::Mul),
        BinaryOp::Div => Some(ArithOp::Div),
        _ => None,
    }
}

/// The inputs on which an operator would overflow `i64`.
pub open spec fn binary_overflows(left: SqlValue, op: BinaryOp, right: SqlValue) -> bool {
    match arith_op_of(op) {
        Some(a) => int_overflows(a, left, right),
        None => false,
    }
}

/// The value of a truth value.
pub open spec fn bool_outcome(b: SqlBool) -> Result<ArithOutcome, DomainError> {
    Ok(ArithOutcome::Value(spec_value_of_bool(b)))
}

/// The contract of a logical operator: the truth values of both sides combined, or the
/// error for the first side that has none.
pub open spec fn logic_post(
    left: SqlValue,
    right: SqlValue,
    r: Result<ArithOutcome, DomainError>,
    is_and: bool,
) -> bool {
    match (spec_truth(left), spec_truth(right)) {
        (Some(a), Some(b)) => r == bool_outcome(
            if is_and {
                spec_and(a, b)
            } else {
                spec_or(a, b)
            },
        ),
        (None, _) => is_truth_error(r, left),
        (Some(_), None) => is_truth_error(r, right),
    }
}

/// What a binary operator gives on two values whose order is `order`: comparisons and
/// logical operators give a boolean or NULL, arithmetic gives what `add`, `sub`, `mul`
/// and `div` give.
pub open spec fn binary_post(
    left: SqlValue,
    op: BinaryOp,
    right: SqlValue,
    order: ValueOrder,
    r: Result<ArithOutcome, DomainError>,
) -> bool {
    match op {
        BinaryOp::Eq => r == bool_outcome(spec_eq(left, right, order)),
        BinaryOp::NotEq => r == bool_outcome(spec_not(spec_eq(left, right, order))),
        BinaryOp::Gt => r == bool_outcome(spec_gt(left, right, order)),
        BinaryOp::Lt => r == bool_outcome(spec_lt(left, right, order)),
        BinaryOp::GtEq => r == bool_outcome(spec_gteq(left, right, order)),
        BinaryOp::LtEq => r == bool_outcome(spec_lteq(left, right, order)),
        BinaryOp::And => logic_post(left, right, r, true),
        BinaryOp::Or => logic_post(left, right, r, false),
        BinaryOp::Add => arith_post(ArithOp::Add, left, right, r),
        BinaryOp::Sub => arith_post(ArithOp::Sub, left, right, r),
        BinaryOp::Mul => arith_post(ArithOp::Mul, left, right, r),
        BinaryOp::Div => arith_post(ArithOp::Div, left, right, r),
    }
}

fn bool_value(b: SqlBool) -> (r: Result<ArithOutcome, DomainError>)
    ensures
        r == bool_outcome(b),
{
    Ok(ArithOutcome::Value(SqlValue::from(b)))
}

/// Applies a binary operator to two values. `order` is the order of the two values, as
/// `compare` gives it and the caller completes it where floats take part; only the
/// comparisons read it. Arithmetic with a float hands the float operands back.
pub fn eval_binary_op(left: &SqlValue, op: BinaryOp, right: &SqlValue, order: ValueOrder) -> (r:
    Result<ArithOutcome, DomainError>)
    requires
        is_order_of(*left, *right, order),
        !binary_overflows(*left, op, *right),
    ensures
        binary_post(*left, op, *right, order, r),
{
    match op {
        BinaryOp::Eq => bool_value(left.eq(right, order)),
        BinaryOp::NotEq => bool_value(left.noteq(right, order)),
        BinaryOp::Gt => bool_value(left.gt(right, order)),
        BinaryOp::Lt => bool_value(left.lt(right, order)),
        BinaryOp::GtEq => bool_value(left.gteq(right, order)),
        BinaryOp::LtEq => bool_value(left.lteq(right, order)),
        BinaryOp::And => match left.and(right) {
            Ok(b) => bool_value(b),
            Err(e) => Err(e),
        },
        BinaryOp::Or => match left.or(right) {
            Ok(b) => bool_value(b),
            Err(e) => Err(e),
        },
        BinaryOp::Add => left.add(right),
        BinaryOp::Sub => left.sub(right),
        BinaryOp::Mul => left.mul(right),
        BinaryOp::Div => left.div(right),
    }
}

// Evaluation of whole expressions. Floats are ordered and combined by two functions that
// the caller hands in; everything else is decided here.

/// Whether `f` orders every pair of float operands, and always the same way.
pub open spec fn orders_floats<F: Fn(FloatOperand, FloatOperand) -> ValueOrder>(f: F) -> bool {
    &&& forall|a: FloatOperand, b: FloatOperand| #[trigger] f.requires((a, b))
    &&& forall|a: FloatOperand, b: FloatOperand, o1: ValueOrder, o2: ValueOrder|
        #![trigger f.ensures((a, b), o1), f.ensures((a, b), o2)]
        f.ensures((a, b), o1) && f.ensures((a, b), o2) ==> o1 == o2
}

/// Whether `g` combines every pair of float operands under every operator, and always
/// into the same bit pattern.
pub open spec fn combines_floats<G: Fn(ArithOp, FloatOperand, FloatOperand) -> u64>(g: G) -> bool {
    &&& forall|op: ArithOp, a: FloatOperand, b: FloatOperand| #[trigger] g.requires((op, a, b))
    &&& forall|op: ArithOp, a: FloatOperand, b: FloatOperand, x: u64, y: u64|
        #![trigger g.ensures((op, a, b), x), g.ensures((op, a, b), y)]
        g.ensures((op, a, b), x) && g.ensures((op, a, b), y) ==> x == y
}

/// The order that `f` gives two float operands.
pub open spec fn float_order_by<F: Fn(FloatOperand, FloatOperand) -> ValueOrder>(
    f: F,
    a: FloatOperand,
    b: FloatOperand,
) -> ValueOrder {
    choose|o: ValueOrder| f.ensures((a, b), o)
}

/// The bit pattern of the float that `g` makes of two operands.
pub open spec fn float_result_by<G: Fn(ArithOp, FloatOperand, FloatOperand) -> u64>(
    g: G,
    op: ArithOp,
    a: FloatOperand,
    b: FloatOperand,
) -> u64 {
    choose|x: u64| g.ensures((op, a, b), x)
}

/// The order of two values: the value order, or, where a float takes part, the order that
/// `f` gives the float operands.
pub open spec fn order_under<F: Fn(FloatOperand, FloatOperand) -> ValueOrder>(
    a: SqlValue,
    b: SqlValue,
    f: F,
) -> ValueOrder {
    if needs_float_order(a, b) {
        float_order_by(f, float_operand(a), float_operand(b))
    } else {
        value_order(a, b)
    }
}

/// An evaluation result: a value, or the message of an evaluation error.
pub type Evaluated = Result<SqlValue, Seq<char>>;

/// Whether a result of the code is the result `s`: the same value, or an evaluation error
/// with the same message.
pub open spec fn eval_matches(r: Result<SqlValue, DomainError>, s: Evaluated) -> bool {
    match (r, s) {
        (Ok(v), Ok(w)) => same_value(v, w),
        (Err(DomainError::EvaluationError(m)), Err(w)) => m@ == w,
        _ => false,
    }
}

pub open spec fn logic_value(l: SqlValue, r: SqlValue, is_and: bool) -> Evaluated {
    match (spec_truth(l), spec_truth(r)) {
        (Some(a), Some(b)) => Ok(
            spec_value_of_bool(
                if is_and {
                    spec_and(a, b)
                } else {
                    spec_or(a, b)
                },
            ),
        ),
        (None, _) => Err(truth_error_message(l)),
        (Some(_), None) => Err(truth_error_message(r)),
    }
}

pub open spec fn arith_value<G: Fn(ArithOp, FloatOperand, FloatOperand) -> u64>(
    op: ArithOp,
    l: SqlValue,
    r: SqlValue,
    g: G,
) -> Evaluated {
    if arith_fails(op, l, r) {
        Err(
            if op == ArithOp::Div && is_zero_divisor(r) {
                zero_division_message()
            } else {
                kind_error_message(op)
            },
        )
    } else {
        match arith_outcome(op, l, r) {
            ArithOutcome::Value(v) => Ok(v),
            ArithOutcome::Floats(x, y) => Ok(SqlValue::Float(float_result_by(g, op, x, y))),
        }
    }
}

/// What a binary operator gives on two values, floats ordered by `f` and combined by `g`.
pub open spec fn binary_value<
    F: Fn(FloatOperand, FloatOperand) -> ValueOrder,
    G: Fn(ArithOp, FloatOperand, FloatOperand) -> u64,
>(l: SqlValue, op: BinaryOp, r: SqlValue, f: F, g: G) -> Evaluated {
    let o = order_under(l, r, f);
    match op {
        BinaryOp::Eq => Ok(spec_value_of_bool(spec_eq(l, r, o))),
        BinaryOp::NotEq => Ok(spec_value_of_bool(spec_not(spec_eq(l, r, o)))),
        BinaryOp::Gt => Ok(spec_value_of_bool(spec_gt(l, r, o))),
        BinaryOp::Lt => Ok(spec_value_of_bool(spec_lt(l, r, o))),
        BinaryOp::GtEq => Ok(spec_value_of_bool(spec_gteq(l, r, o))),
        BinaryOp::LtEq => Ok(spec_value_of_bool(spec_lteq(l, r, o))),
        BinaryOp::And => logic_value(l, r, true),
        BinaryOp::Or => logic_value(l, r, false),
        BinaryOp::Add => arith_value(ArithOp::Add, l, r, g),
        BinaryOp::Sub => arith_value(ArithOp::Sub, l, r, g),
        BinaryOp::Mul => arith_value(ArithOp::Mul, l, r, g),
        BinaryOp::Div => arith_value(ArithOp::Div, l, r, g),
    }
}

/// The `{:?}` text of a column id.
pub open spec fn column_id_text(id: ColumnId) -> Seq<char> {
    "ColumnId("@ + nat_digits(id.0 as nat) + ")"@
}

/// The value of the column with id `id` in a row with values `vals`.
pub open spec fn column_value(cols: Seq<ColumnDef>, vals: Seq<SqlValue>, id: ColumnId) -> Evaluated {
    match position_of_id(cols, id) {
        Some(i) => if i < vals.len() {
            Ok(vals[i])
        } else {
            Err("Row index out of bounds"@)
        },
        None => Err("ColumnId '"@ + column_id_text(id) + "' tidak ditemukan di skema saat evaluasi"@),
    }
}

/// What an expression evaluates to in a row with values `vals` of a table with columns
/// `cols`; `None` where an integer operation on the way overflows `i64`.
pub open spec fn spec_eval<
    F: Fn(FloatOperand, FloatOperand) -> ValueOrder,
    G: Fn(ArithOp, FloatOperand, FloatOperand) -> u64,
>(e: Expr, cols: Seq<ColumnDef>, vals: Seq<SqlValue>, f: F, g: G) -> Option<Evaluated>
    decreases e, 0int,
{
    match e {
        Expr::Literal(v) => Some(Ok(v)),
        Expr::Column(id) => Some(column_value(cols, vals, id)),
        Expr::Not(inner) => match spec_eval(*inner, cols, vals, f, g) {
            Some(Ok(v)) => Some(
                match spec_truth(v) {
                    Some(b) => Ok(spec_value_of_bool(spec_not(b))),
                    None => Err(truth_error_message(v)),
                },
            ),
            other => other,
        },
        Expr::IsNull(inner) => match spec_eval(*inner, cols, vals, f, g) {
            Some(Ok(v)) => Some(Ok(SqlValue::Bool(v is Null))),
            other => other,
        },
        Expr::IsNotNull(inner) => match spec_eval(*inner, cols, vals, f, g) {
            Some(Ok(v)) => Some(Ok(SqlValue::Bool(!(v is Null)))),
            other => other,
        },
        Expr::Binary { left, op, right } => match spec_eval(*left, cols, vals, f, g) {
            Some(Ok(l)) => match spec_eval(*right, cols, vals, f, g) {
                Some(Ok(r)) => if binary_overflows(l, op, r) {
                    None
                } else {
                    Some(binary_value(l, op, r, f, g))
                },
                other => other,
            },
            other => other,
        },
        Expr::InList { expr, list } => match spec_eval(*expr, cols, vals, f, g) {
            Some(Ok(t)) => if t is Null {
                Some(Ok(SqlValue::Null))
            } else {
                in_list_from(t, list@, 0, false, cols, vals, f, g)
            },
            other => other,
        },
    }
}

/// `t IN (items)` from position `i` on, `unknown` telling whether an earlier item compared
/// as unknown: true at the first item equal to `t`, an item's error stops the scan, and
/// at the end NULL if some comparison was unknown, false otherwise.
pub open spec fn in_list_from<
    F: Fn(FloatOperand, FloatOperand) -> ValueOrder,
    G: Fn(ArithOp, FloatOperand, FloatOperand) -> u64,
>(
    t: SqlValue,
    items: Seq<Expr>,
    i: int,
    unknown: bool,
    cols: Seq<ColumnDef>,
    vals: Seq<SqlValue>,
    f: F,
    g: G,
) -> Option<Evaluated>
    decreases items, items.len() - i,
{
    if i < 0 || i >= items.len() {
        Some(
            Ok(
                if unknown {
                    SqlValue::Null
                } else {
                    SqlValue::Bool(false)
                },
            ),
        )
    } else {
        match spec_eval(items[i], cols, vals, f, g) {
            Some(Ok(v)) => match spec_eq(t, v, order_under(t, v, f)) {
                SqlBool::True => Some(Ok(SqlValue::Bool(true))),
                SqlBool::Unknown => in_list_from(t, items, i + 1, true, cols, vals, f, g),
                SqlBool::False => in_list_from(t, items, i + 1, unknown, cols, vals, f, g),
            },
            other => other,
        }
    }
}

proof fn lemma_float_order_by<F: Fn(FloatOperand, FloatOperand) -> ValueOrder>(
    f: F,
    a: FloatOperand,
    b: FloatOperand,
    o: ValueOrder,
)
    requires
        orders_floats(f),
        f.ensures((a, b), o),
    ensures
        float_order_by(f, a, b) == o,
{
    let c = float_order_by(f, a, b);
    assert(f.ensures((a, b), c));
}

proof fn lemma_float_result_by<G: Fn(ArithOp, FloatOperand, FloatOperand) -> u64>(
    g: G,
    op: ArithOp,
    a: FloatOperand,
    b: FloatOperand,
    x: u64,
)
    requires
        combines_floats(g),
        g.ensures((op, a, b), x),
    ensures
        float_result_by(g, op, a, b) == x,
{
    let c = float_result_by(g, op, a, b);
    assert(g.ensures((op, a, b), c));
}

/// Values that are the same give the same results.
proof fn lemma_same_values_agree<
    F: Fn(FloatOperand, FloatOperand) -> ValueOrder,
    G: Fn(ArithOp, FloatOperand, FloatOperand) -> u64,
>(l: SqlValue, l2: SqlValue, op: BinaryOp, r: SqlValue, r2: SqlValue, f: F, g: G)
    requires
        same_value(l, l2),
        same_value(r, r2),
    ensures
        (l is Null) == (l2 is Null),
        spec_truth(l) == spec_truth(l2),
        truth_error_message(l) == truth_error_message(l2),
        order_under(l, r, f) == order_under(l2, r2, f),
        binary_overflows(l, op, r) == binary_overflows(l2, op, r2),
        binary_value(l, op, r, f, g) == binary_value(l2, op, r2, f, g),
{
}

/// Two evaluation outcomes that agree: both overflow, both fail with the same message, or
/// both give the same value.
pub open spec fn outcomes_agree(a: Option<Evaluated>, b: Option<Evaluated>) -> bool {
    match (a, b) {
        (None, None) => true,
        (Some(Ok(v)), Some(Ok(w))) => same_value(v, w),
        (Some(Err(m)), Some(Err(n))) => m == n,
        _ => false,
    }
}

/// Rows whose values are the same give expressions the same outcomes.
pub(crate) proof fn lemma_eval_same_rows<
    F: Fn(FloatOperand, FloatOperand) -> ValueOrder,
    G: Fn(ArithOp, FloatOperand, FloatOperand) -> u64,
>(e: Expr, cols: Seq<ColumnDef>, vals: Seq<SqlValue>, vals2: Seq<SqlValue>, f: F, g: G)
    requires
        vals.len() == vals2.len(),
        forall|i: int| 0 <= i < vals.len() ==> same_value(#[trigger] vals[i], vals2[i]),
    ensures
        outcomes_agree(spec_eval(e, cols, vals, f, g), spec_eval(e, cols, vals2, f, g)),
    decreases e, 0int,
{
    match e {
        Expr::Literal(v) => {
            lemma_same_values_agree(v, v, BinaryOp::And, v, v, f, g);
        },
        Expr::Column(id) => {},
        Expr::Not(inner) => {
            lemma_eval_same_rows(*inner, cols, vals, vals2, f, g);
            if let (Some(Ok(a)), Some(Ok(b))) = (spec_eval(*inner, cols, vals, f, g), spec_eval(*inner, cols, vals2, f, g)) {
                lemma_same_values_agree(a, b, BinaryOp::And, a, b, f, g);
            }
        },
        Expr::IsNull(inner) => {
            lemma_eval_same_rows(*inner, cols, vals, vals2, f, g);
            if let (Some(Ok(a)), Some(Ok(b))) = (spec_eval(*inner, cols, vals, f, g), spec_eval(*inner, cols, vals2, f, g)) {
                lemma_same_values_agree(a, b, BinaryOp::And, a, b, f, g);
            }
        },
        Expr::IsNotNull(inner) => {
            lemma_eval_same_rows(*inner, cols, vals, vals2, f, g);
            if let (Some(Ok(a)), Some(Ok(b))) = (spec_eval(*inner, cols, vals, f, g), spec_eval(*inner, cols, vals2, f, g)) {
                lemma_same_values_agree(a, b, BinaryOp::And, a, b, f, g);
            }
        },
        Expr::Binary { left, op, right } => {
            lemma_eval_same_rows(*left, cols, vals, vals2, f, g);
            lemma_eval_same_rows(*right, cols, vals, vals2, f, g);
            if let (Some(Ok(a)), Some(Ok(b))) = (spec_eval(*left, cols, vals, f, g), spec_eval(*left, cols, vals2, f, g)) {
                if let (Some(Ok(c)), Some(Ok(d))) = (spec_eval(*right, cols, vals, f, g), spec_eval(*right, cols, vals2, f, g)) {
                    lemma_same_values_agree(a, b, op, c, d, f, g);
                }
            }
        },
        Expr::InList { expr, list } => {
            lemma_eval_same_rows(*expr, cols, vals, vals2, f, g);
            if let (Some(Ok(a)), Some(Ok(b))) = (spec_eval(*expr, cols, vals, f, g), spec_eval(*expr, cols, vals2, f, g)) {
                lemma_same_values_agree(a, b, BinaryOp::And, a, b, f, g);
                if !(a is Null) {
                    assert(decreases_to!(e => list));
                    lemma_in_list_same_rows(a, b, list@, 0, false, cols, vals, vals2, f, g);
                }
            }
        },
    }
}

pub(crate) proof fn lemma_in_list_same_rows<
    F: Fn(FloatOperand, FloatOperand) -> ValueOrder,
    G: Fn(ArithOp, FloatOperand, FloatOperand) -> u64,
>(
    t: SqlValue,
    t2: SqlValue,
    items: Seq<Expr>,
    i: int,
    unknown: bool,
    cols: Seq<ColumnDef>,
    vals: Seq<SqlValue>,
    vals2: Seq<SqlValue>,
    f: F,
    g: G,
)
    requires
        same_value(t, t2),
        vals.len() == vals2.len(),
        forall|k: int| 0 <= k < vals.len() ==> same_value(#[trigger] vals[k], vals2[k]),
    ensures
        outcomes_agree(
            in_list_from(t, items, i, unknown, cols, vals, f, g),
            in_list_from(t2, items, i, unknown, cols, vals2, f, g),
        ),
    decreases items, items.len() - i,
{
    if 0 <= i < items.len() {
        lemma_eval_same_rows(items[i], cols, vals, vals2, f, g);
        if let (Some(Ok(a)), Some(Ok(b))) = (spec_eval(items[i], cols, vals, f, g), spec_eval(items[i], cols, vals2, f, g)) {
            lemma_same_values_agree(t, t2, BinaryOp::Eq, a, b, f, g);
            lemma_in_list_same_rows(t, t2, items, i + 1, true, cols, vals, vals2, f, g);
            lemma_in_list_same_rows(t, t2, items, i + 1, unknown, cols, vals, vals2, f, g);
        }
    }
}

/// `x IN (...)` is NULL when `x` is NULL, whatever the list holds.
pub proof fn lemma_in_list_null_target<
    F: Fn(FloatOperand, FloatOperand) -> ValueOrder,
    G: Fn(ArithOp, FloatOperand, FloatOperand) -> u64,
>(target: Expr, list: Vec<Expr>, cols: Seq<ColumnDef>, vals: Seq<SqlValue>, f: F, g: G)
    requires
        spec_eval(target, cols, vals, f, g) == Some(Ok::<SqlValue, Seq<char>>(SqlValue::Null)),
    ensures
        spec_eval(Expr::InList { expr: Box::new(target), list }, cols, vals, f, g) == Some(
            Ok::<SqlValue, Seq<char>>(SqlValue::Null),
        ),
{
}

/// The comparison of the target of an IN list with the value of an item.
pub open spec fn in_item_compare<
    F: Fn(FloatOperand, FloatOperand) -> ValueOrder,
    G: Fn(ArithOp, FloatOperand, FloatOperand) -> u64,
>(t: SqlValue, e: Expr, cols: Seq<ColumnDef>, vals: Seq<SqlValue>, f: F, g: G) -> Option<SqlBool> {
    match spec_eval(e, cols, vals, f, g) {
        Some(Ok(v)) => Some(spec_eq(t, v, order_under(t, v, f))),
        _ => None,
    }
}

proof fn lemma_in_list_scan_finds<
    F: Fn(FloatOperand, FloatOperand) -> ValueOrder,
    G: Fn(ArithOp, FloatOperand, FloatOperand) -> u64,
>(
    t: SqlValue,
    items: Seq<Expr>,
    i: int,
    unknown: bool,
    k: int,
    cols: Seq<ColumnDef>,
    vals: Seq<SqlValue>,
    f: F,
    g: G,
)
    requires
        0 <= i <= k < items.len(),
        forall|j: int| i <= j < k ==> #[trigger] in_item_compare(t, items[j], cols, vals, f, g) is Some,
        in_item_compare(t, items[k], cols, vals, f, g) == Some(SqlBool::True),
    ensures
        in_list_from(t, items, i, unknown, cols, vals, f, g) == Some(Ok::<SqlValue, Seq<char>>(SqlValue::Bool(true))),
    decreases k - i,
{
    if i < k {
        assert(in_item_compare(t, items[i], cols, vals, f, g) is Some);
        lemma_in_list_scan_finds(t, items, i + 1, true, k, cols, vals, f, g);
        lemma_in_list_scan_finds(t, items, i + 1, unknown, k, cols, vals, f, g);
    }
}

proof fn lemma_in_list_scan_misses<
    F: Fn(FloatOperand, FloatOperand) -> ValueOrder,
    G: Fn(ArithOp, FloatOperand, FloatOperand) -> u64,
>(
    t: SqlValue,
    items: Seq<Expr>,
    i: int,
    unknown: bool,
    cols: Seq<ColumnDef>,
    vals: Seq<SqlValue>,
    f: F,
    g: G,
)
    requires
        0 <= i <= items.len(),
        forall|j: int|
            i <= j < items.len() ==> #[trigger] in_item_compare(t, items[j], cols, vals, f, g) is Some
                && in_item_compare(t, items[j], cols, vals, f, g) != Some(SqlBool::True),
    ensures
        in_list_from(t, items, i, unknown, cols, vals, f, g) == Some(
            Ok::<SqlValue, Seq<char>>(
                if unknown || exists|j: int|
                    i <= j < items.len() && #[trigger] in_item_compare(t, items[j], cols, vals, f, g)
                        == Some(SqlBool::Unknown) {
                    SqlValue::Null
                } else {
                    SqlValue::Bool(false)
                },
            ),
        ),
    decreases items.len() - i,
{
    if i < items.len() {
        assert(in_item_compare(t, items[i], cols, vals, f, g) is Some);
        lemma_in_list_scan_misses(t, items, i + 1, true, cols, vals, f, g);
        lemma_in_list_scan_misses(t, items, i + 1, unknown, cols, vals, f, g);
        if in_item_compare(t, items[i], cols, vals, f, g) == Some(SqlBool::False) {
            if exists|j: int|
                i <= j < items.len() && #[trigger] in_item_compare(t, items[j], cols, vals, f, g)
                    == Some(SqlBool::Unknown) {
                let j = choose|j: int|
                    i <= j < items.len() && #[trigger] in_item_compare(t, items[j], cols, vals, f, g)
                        == Some(SqlBool::Unknown);
                assert(j != i);
                assert(i + 1 <= j);
            }
        }
    }
}

/// `t IN (items)` for a target that is not NULL: TRUE as soon as an item equals the target,
/// whatever NULL or unknown comparisons come before it, as long as no earlier item fails;
/// where every item evaluates and none equals the target, NULL if some comparison is
/// unknown and FALSE otherwise.
pub proof fn lemma_in_list_answers<
    F: Fn(FloatOperand, FloatOperand) -> ValueOrder,
    G: Fn(ArithOp, FloatOperand, FloatOperand) -> u64,
>(target: Expr, list: Vec<Expr>, t: SqlValue, cols: Seq<ColumnDef>, vals: Seq<SqlValue>, f: F, g: G)
    requires
        spec_eval(target, cols, vals, f, g) == Some(Ok::<SqlValue, Seq<char>>(t)),
        !(t is Null),
    ensures
        forall|k: int|
            0 <= k < list@.len() && (forall|j: int|
                0 <= j < k ==> #[trigger] in_item_compare(t, list@[j], cols, vals, f, g) is Some)
                && in_item_compare(t, list@[k], cols, vals, f, g) == Some(SqlBool::True)
                ==> spec_eval(Expr::InList { expr: Box::new(target), list }, cols, vals, f, g)
                == Some(Ok::<SqlValue, Seq<char>>(SqlValue::Bool(true))),
        (forall|j: int|
            0 <= j < list@.len() ==> #[trigger] in_item_compare(t, list@[j], cols, vals, f, g) is Some
                && in_item_compare(t, list@[j], cols, vals, f, g) != Some(SqlBool::True))
            ==> spec_eval(Expr::InList { expr: Box::new(target), list }, cols, vals, f, g) == Some(
            Ok::<SqlValue, Seq<char>>(
                if exists|j: int|
                    0 <= j < list@.len() && #[trigger] in_item_compare(t, list@[j], cols, vals, f, g)
                        == Some(SqlBool::Unknown) {
                    SqlValue::Null
                } else {
                    SqlValue::Bool(false)
                },
            ),
        ),
{
    assert forall|k: int|
        0 <= k < list@.len() && (forall|j: int|
            0 <= j < k ==> #[trigger] in_item_compare(t, list@[j], cols, vals, f, g) is Some)
            && in_item_compare(t, list@[k], cols, vals, f, g) == Some(SqlBool::True)
        implies spec_eval(Expr::InList { expr: Box::new(target), list }, cols, vals, f, g)
            == Some(Ok::<SqlValue, Seq<char>>(SqlValue::Bool(true))) by {
        lemma_in_list_scan_finds(t, list@, 0, false, k, cols, vals, f, g);
    }
    if forall|j: int|
        0 <= j < list@.len() ==> #[trigger] in_item_compare(t, list@[j], cols, vals, f, g) is Some
            && in_item_compare(t, list@[j], cols, vals, f, g) != Some(SqlBool::True) {
        lemma_in_list_scan_misses(t, list@, 0, false, cols, vals, f, g);
    }
}

/// IS NULL and IS NOT NULL give opposite answers, or fail alike.
pub proof fn lemma_null_tests_opposite<
    F: Fn(FloatOperand, FloatOperand) -> ValueOrder,
    G: Fn(ArithOp, FloatOperand, FloatOperand) -> u64,
>(e: Expr, cols: Seq<ColumnDef>, vals: Seq<SqlValue>, f: F, g: G)
    ensures
        match (
            spec_eval(Expr::IsNull(Box::new(e)), cols, vals, f, g),
            spec_eval(Expr::IsNotNull(Box::new(e)), cols, vals, f, g),
        ) {
            (Some(Ok(SqlValue::Bool(a))), Some(Ok(SqlValue::Bool(b)))) => a == !b,
            (x, y) => x == y && !(x matches Some(Ok(_))),
        },
{
}

/// Whether the float order `f` gives turns round when its two sides are swapped.
pub open spec fn float_order_turns<F: Fn(FloatOperand, FloatOperand) -> ValueOrder>(f: F) -> bool {
    forall|x: FloatOperand, y: FloatOperand|
        #[trigger] float_order_by(f, x, y) == reverse_order(float_order_by(f, y, x))
}

/// The comparison laws for every pair of values, floats included, where the float order
/// turns round when its sides are swapped: `=` is symmetric and unknown exactly when a side
/// is NULL, `a > b` is `b < a`, and between values that are not NULL exactly one of `<`,
/// `=`, `>` holds, so `>` excludes both `b > a` and `a = b`.
pub proof fn lemma_comparisons_under<F: Fn(FloatOperand, FloatOperand) -> ValueOrder>(
    f: F,
    a: SqlValue,
    b: SqlValue,
)
    requires
        float_order_turns(f),
    ensures
        order_under(b, a, f) == reverse_order(order_under(a, b, f)),
        spec_eq(a, b, order_under(a, b, f)) == spec_eq(b, a, order_under(b, a, f)),
        (spec_eq(a, b, order_under(a, b, f)) == SqlBool::Unknown) <==> (a is Null || b is Null),
        spec_gt(a, b, order_under(a, b, f)) == spec_lt(b, a, order_under(b, a, f)),
        (a is Null || b is Null) ==> spec_gt(a, b, order_under(a, b, f)) == SqlBool::Unknown,
        !(a is Null) && !(b is Null) ==> (spec_lt(a, b, order_under(a, b, f)) == SqlBool::True) as int
            + (spec_eq(a, b, order_under(a, b, f)) == SqlBool::True) as int + (spec_gt(
            a,
            b,
            order_under(a, b, f),
        ) == SqlBool::True) as int == 1,
        spec_gt(a, b, order_under(a, b, f)) == SqlBool::True ==> spec_gt(
            b,
            a,
            order_under(b, a, f),
        ) == SqlBool::False && spec_eq(a, b, order_under(a, b, f)) == SqlBool::False,
{
    if needs_float_order(a, b) {
        assert(float_order_by(f, float_operand(b), float_operand(a)) == reverse_order(
            float_order_by(f, float_operand(a), float_operand(b)),
        ));
        assert(float_order_by(f, float_operand(a), float_operand(b)) == reverse_order(
            float_order_by(f, float_operand(b), float_operand(a)),
        ));
    } else {
        lemma_order_antisymmetric(a, b);
    }
}

fn order_with<F: Fn(FloatOperand, FloatOperand) -> ValueOrder>(
    l: &SqlValue,
    r: &SqlValue,
    float_order: &F,
) -> (o: ValueOrder)
    requires
        orders_floats(*float_order),
    ensures
        o == order_under(*l, *r, *float_order),
{
    match l.compare(r) {
        Comparison::Ordered(o) => o,
        Comparison::Floats(x, y) => {
            let o = float_order(x, y);
            proof {
                lemma_float_order_by(*float_order, x, y, o);
            }
            o
        },
    }
}

fn arith_op(op: BinaryOp) -> (r: Option<ArithOp>)
    ensures
        r == arith_op_of(op),
{
    match op {
        BinaryOp::Add => Some(ArithOp::Add),
        BinaryOp::Sub => Some(ArithOp::Sub),
        BinaryOp::Mul => Some(ArithOp::Mul),
        BinaryOp::Div => Some(ArithOp::Div),
        _ => None,
    }
}

fn apply_binary<
    F: Fn(FloatOperand, FloatOperand) -> ValueOrder,
    G: Fn(ArithOp, FloatOperand, FloatOperand) -> u64,
>(l: &SqlValue, op: BinaryOp, r: &SqlValue, float_order: &F, float_arith: &G) -> (res: Result<
    SqlValue,
    DomainError,
>)
    requires
        orders_floats(*float_order),
        combines_floats(*float_arith),
        !binary_overflows(*l, op, *r),
    ensures
        eval_matches(res, binary_value(*l, op, *r, *float_order, *float_arith)),
{
    let order = order_with(l, r, float_order);
    match eval_binary_op(l, op, r, order) {
        Ok(ArithOutcome::Value(v)) => Ok(v),
        Ok(ArithOutcome::Floats(x, y)) => match arith_op(op) {
            Some(a) => {
                let bits = float_arith(a, x, y);
                proof {
                    lemma_float_result_by(*float_arith, a, x, y, bits);
                }
                Ok(SqlValue::Float(bits))
            },
            None => {
                proof {
                    assert(false);
                }
                Ok(SqlValue::Null)
            },
        },
        Err(e) => Err(e),
    }
}

fn eval_column(id: ColumnId, schema: &Schema, row: &Row) -> (r: Result<SqlValue, DomainError>)
    ensures
        eval_matches(r, column_value(schema.spec_columns(), row.spec_values(), id)),
{
    match schema.index_of_id(id) {
        Some(i) => match row.get_by_index(i) {
            Some(v) => Ok(v.copy_value()),
            None => Err(DomainError::EvaluationError(String::from_str("Row index out of bounds"))),
        },
        None => {
            let mut msg = String::from_str("ColumnId '");
            msg.append("ColumnId(");
            msg.append(u64_to_decimal(id.0 as u64).as_str());
            msg.append(")");
            msg.append("' tidak ditemukan di skema saat evaluasi");
            assert(msg@ =~= "ColumnId '"@ + column_id_text(id)
                + "' tidak ditemukan di skema saat evaluasi"@);
            Err(DomainError::EvaluationError(msg))
        },
    }
}

/// Whether an answer of `try_eval_expr` is the outcome `s`.
pub open spec fn outcome_matches(r: Option<Result<SqlValue, DomainError>>, s: Option<Evaluated>) -> bool {
    match (r, s) {
        (None, None) => true,
        (Some(x), Some(y)) => eval_matches(x, y),
        _ => false,
    }
}

fn int_result_wide(op: ArithOp, a: i64, b: i64) -> (r: i128)
    requires
        op == ArithOp::Div ==> b != 0,
    ensures
        r as int == int_result(op, a as int, b as int),
{
    let a2 = a as i128;
    let b2 = b as i128;
    match op {
        ArithOp::Add => a2 + b2,
        ArithOp::Sub => a2 - b2,
        ArithOp::Mul => {
            assert(-0x4000_0000_0000_0000_0000_0000_0000_0000 <= a2 * b2
                <= 0x4000_0000_0000_0000_0000_0000_0000_0000) by (nonlinear_arith)
                requires
                    -0x8000_0000_0000_0000 <= a2 <= 0x7fff_ffff_ffff_ffff,
                    -0x8000_0000_0000_0000 <= b2 <= 0x7fff_ffff_ffff_ffff,
            ;
            a2 * b2
        },
        ArithOp::Div => {
            if b2 > 0 {
                a2 / b2
            } else {
                -(a2 / (-b2))
            }
        },
    }
}

/// Whether a binary operator on two values would overflow `i64`.
fn overflows(l: &SqlValue, op: BinaryOp, r: &SqlValue) -> (b: bool)
    ensures
        b == binary_overflows(*l, op, *r),
{
    match arith_op(op) {
        None => false,
        Some(a) => match (l, r) {
            (SqlValue::Int(x), SqlValue::Int(y)) => {
                if a == ArithOp::Div && *y == 0 {
                    false
                } else {
                    let w = int_result_wide(a, *x, *y);
                    w < -0x8000_0000_0000_0000i128 || w > 0x7fff_ffff_ffff_ffffi128
                }
            },
            _ => false,
        },
    }
}

/// Evaluates an expression over a row of a table with schema `schema`, as `eval_expr`
/// does, and answers `None` where an integer operation on the way would overflow `i64`.
pub fn try_eval_expr<
    F: Fn(FloatOperand, FloatOperand) -> ValueOrder,
    G: Fn(ArithOp, FloatOperand, FloatOperand) -> u64,
>(expr: &Expr, schema: &Schema, row: &Row, float_order: &F, float_arith: &G) -> (r: Option<
    Result<SqlValue, DomainError>,
>)
    requires
        orders_floats(*float_order),
        combines_floats(*float_arith),
    ensures
        outcome_matches(
            r,
            spec_eval(*expr, schema.spec_columns(), row.spec_values(), *float_order, *float_arith),
        ),
    decreases expr,
{
    let ghost cols = schema.spec_columns();
    let ghost vals = row.spec_values();
    let ghost f = *float_order;
    let ghost g = *float_arith;
    match expr {
        Expr::Literal(v) => Some(Ok(v.copy_value())),
        Expr::Column(id) => Some(eval_column(*id, schema, row)),
        Expr::Not(inner) => {
            let v = match try_eval_expr(&**inner, schema, row, float_order, float_arith) {
                Some(Ok(v)) => v,
                Some(Err(e)) => return Some(Err(e)),
                None => return None,
            };
            let ghost sv = spec_eval(**inner, cols, vals, f, g)->0->Ok_0;
            proof {
                lemma_same_values_agree(v, sv, BinaryOp::And, v, sv, f, g);
            }
            match v.to_sql_bool() {
                Ok(b) => {
                    let nb = match b {
                        SqlBool::True => SqlBool::False,
                        SqlBool::False => SqlBool::True,
                        SqlBool::Unknown => SqlBool::Unknown,
                    };
                    Some(Ok(SqlValue::from(nb)))
                },
                Err(e) => Some(Err(e)),
            }
        },
        Expr::IsNull(inner) => {
            let v = match try_eval_expr(&**inner, schema, row, float_order, float_arith) {
                Some(Ok(v)) => v,
                Some(Err(e)) => return Some(Err(e)),
                None => return None,
            };
            let ghost sv = spec_eval(**inner, cols, vals, f, g)->0->Ok_0;
            proof {
                lemma_same_values_agree(v, sv, BinaryOp::And, v, sv, f, g);
            }
            Some(Ok(SqlValue::Bool(v.is_null())))
        },
        Expr::IsNotNull(inner) => {
            let v = match try_eval_expr(&**inner, schema, row, float_order, float_arith) {
                Some(Ok(v)) => v,
                Some(Err(e)) => return Some(Err(e)),
                None => return None,
            };
            let ghost sv = spec_eval(**inner, cols, vals, f, g)->0->Ok_0;
            proof {
                lemma_same_values_agree(v, sv, BinaryOp::And, v, sv, f, g);
            }
            Some(Ok(SqlValue::Bool(!v.is_null())))
        },
        Expr::Binary { left, op, right } => {
            let l = match try_eval_expr(&**left, schema, row, float_order, float_arith) {
                Some(Ok(v)) => v,
                Some(Err(e)) => return Some(Err(e)),
                None => return None,
            };
            let r = match try_eval_expr(&**right, schema, row, float_order, float_arith) {
                Some(Ok(v)) => v,
                Some(Err(e)) => return Some(Err(e)),
                None => return None,
            };
            let ghost sl = spec_eval(**left, cols, vals, f, g)->0->Ok_0;
            let ghost sr = spec_eval(**right, cols, vals, f, g)->0->Ok_0;
            proof {
                lemma_same_values_agree(l, sl, *op, r, sr, f, g);
            }
            if overflows(&l, *op, &r) {
                return None;
            }
            Some(apply_binary(&l, *op, &r, float_order, float_arith))
        },
        Expr::InList { expr: target, list } => {
            let t = match try_eval_expr(&**target, schema, row, float_order, float_arith) {
                Some(Ok(v)) => v,
                Some(Err(e)) => return Some(Err(e)),
                None => return None,
            };
            let ghost st = spec_eval(**target, cols, vals, f, g)->0->Ok_0;
            proof {
                lemma_same_values_agree(t, st, BinaryOp::And, t, st, f, g);
            }
            if t.is_null() {
                return Some(Ok(SqlValue::Null));
            }
            let ghost whole = spec_eval(*expr, cols, vals, f, g);
            let mut has_unknown = false;
            let mut i: usize = 0;
            assert(decreases_to!(*expr => *list));
            while i < list.len()
                invariant
                    decreases_to!(*expr => *list),
                    orders_floats(*float_order),
                    combines_floats(*float_arith),
                    f == *float_order,
                    g == *float_arith,
                    cols == schema.spec_columns(),
                    vals == row.spec_values(),
                    same_value(t, st),
                    !(st is Null),
                    i <= list@.len(),
                    in_list_from(st, list@, i as int, has_unknown, cols, vals, f, g) == whole,
                    whole == spec_eval(*expr, cols, vals, f, g),
                decreases list@.len() - i,
            {
                proof {
                    assert(decreases_to!(*list => list[i as int]));
                    assert(decreases_to!(*expr => list[i as int]));
                }
                let v = match try_eval_expr(&list[i], schema, row, float_order, float_arith) {
                    Some(Ok(v)) => v,
                    Some(Err(e)) => return Some(Err(e)),
                    None => return None,
                };
                let ghost sv = spec_eval(list@[i as int], cols, vals, f, g)->0->Ok_0;
                proof {
                    lemma_same_values_agree(t, st, BinaryOp::Eq, v, sv, f, g);
                }
                let o = order_with(&t, &v, float_order);
                match t.eq(&v, o) {
                    SqlBool::True => return Some(Ok(SqlValue::Bool(true))),
                    SqlBool::Unknown => {
                        has_unknown = true;
                    },
                    SqlBool::False => {},
                }
                i = i + 1;
            }
            if has_unknown {
                Some(Ok(SqlValue::Null))
            } else {
                Some(Ok(SqlValue::Bool(false)))
            }
        },
    }
}

/// Evaluates an expression over a row of a table with schema `schema`. Pairs that involve
/// a float are ordered by `float_order` and combined by `float_arith`, which gives the bit
/// pattern of the result.
pub fn eval_expr<
    F: Fn(FloatOperand, FloatOperand) -> ValueOrder,
    G: Fn(ArithOp, FloatOperand, FloatOperand) -> u64,
>(expr: &Expr, schema: &Schema, row: &Row, float_order: &F, float_arith: &G) -> (r: Result<
    SqlValue,
    DomainError,
>)
    requires
        orders_floats(*float_order),
        combines_floats(*float_arith),
        spec_eval(*expr, schema.spec_columns(), row.spec_values(), *float_order, *float_arith) is Some,
    ensures
        spec_eval(*expr, schema.spec_columns(), row.spec_values(), *float_order, *float_arith) matches Some(s)
            && eval_matches(r, s),
{
    match try_eval_expr(expr, schema, row, float_order, float_arith) {
        Some(r) => r,
        None => {
            proof {
                assert(false);
            }
            Ok(SqlValue::Null)
        },
    }
}

/// A WHERE condition keeps a row exactly when its value is true: a boolean gives itself,
/// NULL rejects the row, another value is the truth-value error, and an error stays.
pub proof fn lemma_where_from_value(s: Evaluated)
    ensures
        where_value(s) == match s {
            Ok(SqlValue::Bool(b)) => Ok(b),
            Ok(SqlValue::Null) => Ok(false),
            Ok(v) => Err(truth_error_message(v)),
            Err(m) => Err(m),
        },
{
}

/// Evaluates a WHERE condition: whether the expression is true; false and NULL both reject
/// the row, and a value without a truth value is an error.
pub open spec fn where_value(s: Evaluated) -> Result<bool, Seq<char>> {
    match s {
        Ok(v) => match spec_truth(v) {
            Some(b) => Ok(b == SqlBool::True),
            None => Err(truth_error_message(v)),
        },
        Err(m) => Err(m),
    }
}

pub open spec fn where_matches(r: Result<bool, DomainError>, s: Result<bool, Seq<char>>) -> bool {
    match (r, s) {
        (Ok(a), Ok(b)) => a == b,
        (Err(DomainError::EvaluationError(m)), Err(w)) => m@ == w,
        _ => false,
    }
}

pub fn eval_where<
    F: Fn(FloatOperand, FloatOperand) -> ValueOrder,
    G: Fn(ArithOp, FloatOperand, FloatOperand) -> u64,
>(expr: &Expr, schema: &Schema, row: &Row, float_order: &F, float_arith: &G) -> (r: Result<
    bool,
    DomainError,
>)
    requires
        orders_floats(*float_order),
        combines_floats(*float_arith),
        spec_eval(*expr, schema.spec_columns(), row.spec_values(), *float_order, *float_arith) is Some,
    ensures
        spec_eval(*expr, schema.spec_columns(), row.spec_values(), *float_order, *float_arith) matches Some(s)
            && where_matches(r, where_value(s)),
{
    let ghost s = spec_eval(*expr, schema.spec_columns(), row.spec_values(), *float_order, *float_arith)->0;
    let v = match eval_expr(expr, schema, row, float_order, float_arith) {
        Ok(v) => v,
        Err(e) => return Err(e),
    };
    proof {
        lemma_same_values_agree(v, s->Ok_0, BinaryOp::And, v, s->Ok_0, *float_order, *float_arith);
    }
    match v.to_sql_bool() {
        Ok(b) => Ok(b.is_true()),
        Err(e) => Err(e),
    }
}

} // verus!
