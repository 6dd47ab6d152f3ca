use vstd::prelude::*;

use crate::catalog::action::DmlResult;
use crate::catalog::table::Table;
use crate::domain::expr::evaluator::{
    combines_floats, eval_expr, eval_where, orders_floats, spec_eval, where_value,
};
use crate::domain::expr::expr::Expr;
use crate::domain::id::{spec_successor, ColumnId, RowId};
use crate::domain::schema::sql_column::ColumnDef;
use crate::domain::schema::sql_schema::{
    checks_from, lemma_verdict_same_rows, lemma_verdict_takes, reaches_checks, row_verdict,
    takes_values, Schema,
};
use crate::domain::sql_row::Row;
use crate::domain::types::arithmetic::ArithOp;
use crate::domain::types::ordering::{FloatOperand, ValueOrder};
use crate::domain::types::sql_value::{same_value, value_eq, SqlValue};
use crate::error::DomainError;

verus! {

/// Whether a statement with the condition `predicate` acts on a row: every row without a
/// condition, otherwise the rows on which the condition is true. `None` where evaluating
/// the condition overflows.
pub open spec fn row_selected<
    F: Fn(FloatOperand, FloatOperand) -> ValueOrder,
    G: Fn(ArithOp, FloatOperand, FloatOperand) -> u64,
>(predicate: Option<&Expr>, schema: Schema, row: Row, f: F, g: G) -> Option<Result<bool, Seq<char>>> {
    match predicate {
        None => Some(Ok(true)),
        Some(e) => match spec_eval(*e, schema.spec_columns(), row.spec_values(), f, g) {
            None => None,
            Some(s) => Some(where_value(s)),
        },
    }
}

/// Whether the condition has been decided, without an error, for every row before `i`.
pub open spec fn decided_before<
    F: Fn(FloatOperand, FloatOperand) -> ValueOrder,
    G: Fn(ArithOp, FloatOperand, FloatOperand) -> u64,
>(predicate: Option<&Expr>, schema: Schema, rows: Seq<Row>, i: int, f: F, g: G) -> bool {
    forall|j: int|
        0 <= j < i ==> row_selected(predicate, schema, #[trigger] rows[j], f, g) matches Some(
            Ok(_),
        )
}

/// The rows that DELETE keeps, in order.
pub open spec fn rows_kept<
    F: Fn(FloatOperand, FloatOperand) -> ValueOrder,
    G: Fn(ArithOp, FloatOperand, FloatOperand) -> u64,
>(predicate: Option<&Expr>, schema: Schema, rows: Seq<Row>, f: F, g: G) -> Seq<Row>
    decreases rows.len(),
{
    if rows.len() == 0 {
        Seq::empty()
    } else {
        let rest = rows_kept(predicate, schema, rows.drop_last(), f, g);
        if row_selected(predicate, schema, rows.last(), f, g) == Some(Ok::<bool, Seq<char>>(true)) {
            rest
        } else {
            rest.push(rows.last())
        }
    }
}

/// Deletes the rows on which `predicate` is true, or every row without a predicate, and
/// answers how many went. The condition is decided for every row first; where it fails on
/// a row, that error is the answer and no row is deleted.
pub fn handle_delete<
    F: Fn(FloatOperand, FloatOperand) -> ValueOrder,
    G: Fn(ArithOp, FloatOperand, FloatOperand) -> u64,
>(table: &mut Table, predicate: Option<&Expr>, float_order: &F, float_arith: &G) -> (r: Result<
    usize,
    DomainError,
>)
    requires
        old(table).wf(),
        orders_floats(*float_order),
        combines_floats(*float_arith),
        forall|i: int|
            0 <= i < old(table).spec_rows().len() && decided_before(
                predicate,
                old(table).spec_schema(),
                old(table).spec_rows(),
                i,
                *float_order,
                *float_arith,
            ) ==> row_selected(
                predicate,
                old(table).spec_schema(),
                #[trigger] old(table).spec_rows()[i],
                *float_order,
                *float_arith,
            ) is Some,
    ensures
        final(table).wf(),
        old(table).ids_fresh() ==> final(table).ids_fresh(),
        final(table).spec_id() == old(table).spec_id(),
        final(table).spec_name() == old(table).spec_name(),
        final(table).spec_schema() == old(table).spec_schema(),
        final(table).spec_next_row() == old(table).spec_next_row(),
        match r {
            Ok(n) => {
                &&& decided_before(
                    predicate,
                    old(table).spec_schema(),
                    old(table).spec_rows(),
                    old(table).spec_rows().len() as int,
                    *float_order,
                    *float_arith,
                )
                &&& final(table).spec_rows() == rows_kept(
                    predicate,
                    old(table).spec_schema(),
                    old(table).spec_rows(),
                    *float_order,
                    *float_arith,
                )
                &&& n == old(table).spec_rows().len() - final(table).spec_rows().len()
            },
            Err(e) => {
                &&& final(table).spec_rows() == old(table).spec_rows()
                &&& exists|k: int|
                    0 <= k < old(table).spec_rows().len() && decided_before(
                        predicate,
                        old(table).spec_schema(),
                        old(table).spec_rows(),
                        k,
                        *float_order,
                        *float_arith,
                    ) && (row_selected(
                        predicate,
                        old(table).spec_schema(),
                        #[trigger] old(table).spec_rows()[k],
                        *float_order,
                        *float_arith,
                    ) matches Some(Err(m)) && e matches DomainError::EvaluationError(em) && em@
                        == m)
            },
        },
{
    let ghost f = *float_order;
    let ghost g = *float_arith;
    let ghost schema = table.spec_schema();
    let ghost orig = table.spec_rows();
    let mut flags: Vec<bool> = Vec::new();
    let mut i: usize = 0;
    while i < table.rows().len()
        invariant
            *table == *old(table),
            table.wf(),
            schema == table.spec_schema(),
            orig == table.spec_rows(),
            f == *float_order,
            g == *float_arith,
            orders_floats(f),
            combines_floats(g),
            i <= orig.len(),
            flags@.len() == i,
            decided_before(predicate, schema, orig, i as int, f, g),
            forall|j: int|
                0 <= j < i ==> #[trigger] flags@[j] == (row_selected(predicate, schema, orig[j], f, g)
                    == Some(Ok::<bool, Seq<char>>(true))),
            forall|k: int|
                0 <= k < orig.len() && decided_before(predicate, schema, orig, k, f, g)
                    ==> row_selected(predicate, schema, #[trigger] orig[k], f, g) is Some,
        decreases orig.len() - i,
    {
        let row = &table.rows()[i];
        let selected = match predicate {
            Some(e) => match eval_where(e, table.schema(), row, float_order, float_arith) {
                Ok(b) => b,
                Err(err) => {
                    proof {
                        assert(row_selected(predicate, schema, orig[i as int], f, g) is Some);
                    }
                    return Err(err);
                },
            },
            None => true,
        };
        flags.push(selected);
        i = i + 1;
    }
    let total = table.rows().len();
    let mut old_rows = table.take_rows();
    let mut kept: Vec<Row> = Vec::new();
    let mut k: usize = 0;
    while k < total
        invariant
            total == orig.len(),
            k <= total,
            flags@.len() == total,
            old_rows@ == orig.subrange(k as int, total as int),
            kept@ == rows_kept(predicate, schema, orig.take(k as int), f, g),
            forall|j: int|
                0 <= j < total ==> #[trigger] flags@[j] == (row_selected(predicate, schema, orig[j], f, g)
                    == Some(Ok::<bool, Seq<char>>(true))),
        decreases total - k,
    {
        let row = old_rows.remove(0);
        proof {
            assert(orig.take(k as int + 1).drop_last() =~= orig.take(k as int));
            assert(orig.take(k as int + 1).last() == orig[k as int]);
            assert(old_rows@ =~= orig.subrange(k as int + 1, total as int));
        }
        if !flags[k] {
            kept.push(row);
        }
        k = k + 1;
    }
    proof {
        assert(orig.take(total as int) =~= orig);
    }
    let remaining = kept.len();
    proof {
        lemma_rows_kept_len(predicate, schema, orig, f, g);
        assert forall|j: int| 0 <= j < kept@.len() implies (#[trigger] kept@[j]).spec_values().len()
            == schema.spec_columns().len() by {
            lemma_rows_kept_from(predicate, schema, orig, f, g);
            let m = choose|m: int| 0 <= m < orig.len() && orig[m] == kept@[j];
            assert(orig[m].spec_values().len() == schema.spec_columns().len());
        }
        if old(table).ids_fresh() {
            lemma_rows_kept_ids(predicate, schema, orig, table.spec_next_row(), f, g);
        }
    }
    table.append_rows(kept);
    Ok(total - remaining)
}

/// The values of a row to insert, filled up with NULL to the number of columns.
pub open spec fn padded(vals: Seq<SqlValue>, n: nat) -> Seq<SqlValue> {
    if vals.len() < n {
        vals + Seq::new((n - vals.len()) as nat, |i: int| SqlValue::Null)
    } else {
        vals
    }
}

/// The row id `k` steps after `v`.
pub open spec fn successor_n(v: u64, k: nat) -> u64
    decreases k,
{
    if k == 0 {
        v
    } else {
        spec_successor(successor_n(v, (k - 1) as nat))
    }
}

/// Whether the schema takes each of the first `k` rows, filled up with NULL.
pub open spec fn taken_before<
    F: Fn(FloatOperand, FloatOperand) -> ValueOrder,
    G: Fn(ArithOp, FloatOperand, FloatOperand) -> u64,
>(schema: Schema, raw: Seq<Vec<SqlValue>>, k: int, f: F, g: G) -> bool {
    forall|j: int|
        0 <= j < k ==> takes_values(
            schema,
            padded((#[trigger] raw[j])@, schema.spec_columns().len()),
            f,
            g,
        )
}

/// Row ids do not wrap while the sequence stays within `u64`.
pub proof fn lemma_successor_n(v: u64, k: nat)
    requires
        v + k <= u64::MAX,
    ensures
        successor_n(v, k) == v + k,
    decreases k,
{
    if k > 0 {
        lemma_successor_n(v, (k - 1) as nat);
    }
}

/// Inserts rows, all or none. Each row is filled up with NULL to the number of columns,
/// checked against the schema and given the next row id, in order; the first row that
/// the schema refuses is the answer, and no row is added, though the ids drawn for the
/// rows before it stay used. Otherwise every row is added, in order, and their number
/// comes back.
pub fn handle_insert<
    F: Fn(FloatOperand, FloatOperand) -> ValueOrder,
    G: Fn(ArithOp, FloatOperand, FloatOperand) -> u64,
>(table: &mut Table, raw_rows: Vec<Vec<SqlValue>>, float_order: &F, float_arith: &G) -> (r:
    Result<usize, DomainError>)
    requires
        old(table).wf(),
        orders_floats(*float_order),
        combines_floats(*float_arith),
        forall|k: int|
            0 <= k < raw_rows@.len() && taken_before(
                old(table).spec_schema(),
                raw_rows@,
                k,
                *float_order,
                *float_arith,
            ) ==> {
                let vals = padded(
                    (#[trigger] raw_rows@[k])@,
                    old(table).spec_schema().spec_columns().len(),
                );
                reaches_checks(old(table).spec_schema().spec_columns(), vals) ==> checks_from(
                    old(table).spec_schema().spec_table_constraints(),
                    0,
                    old(table).spec_schema().spec_columns(),
                    vals,
                    *float_order,
                    *float_arith,
                ) is Some
            },
    ensures
        final(table).wf(),
        old(table).ids_fresh() && old(table).spec_next_row() + raw_rows@.len() <= u64::MAX
            ==> final(table).ids_fresh(),
        final(table).spec_id() == old(table).spec_id(),
        final(table).spec_name() == old(table).spec_name(),
        final(table).spec_schema() == old(table).spec_schema(),
        match r {
            Ok(n) => {
                &&& n == raw_rows@.len()
                &&& taken_before(
                    old(table).spec_schema(),
                    raw_rows@,
                    n as int,
                    *float_order,
                    *float_arith,
                )
                &&& final(table).spec_rows().len() == old(table).spec_rows().len() + n
                &&& final(table).spec_rows().take(old(table).spec_rows().len() as int)
                    == old(table).spec_rows()
                &&& forall|j: int|
                    0 <= j < n ==> {
                        let row = #[trigger] final(table).spec_rows()[old(table).spec_rows().len() + j];
                        &&& row.spec_id() == RowId(successor_n(old(table).spec_next_row(), j as nat))
                        &&& row.spec_values() == padded(
                            raw_rows@[j]@,
                            old(table).spec_schema().spec_columns().len(),
                        )
                    }
                &&& final(table).spec_next_row() == successor_n(old(table).spec_next_row(), n as nat)
            },
            Err(e) => {
                &&& final(table).spec_rows() == old(table).spec_rows()
                &&& exists|k: int|
                    0 <= k < raw_rows@.len() && taken_before(
                        old(table).spec_schema(),
                        raw_rows@,
                        k,
                        *float_order,
                        *float_arith,
                    ) && !takes_values(
                        old(table).spec_schema(),
                        padded(
                            (#[trigger] raw_rows@[k])@,
                            old(table).spec_schema().spec_columns().len(),
                        ),
                        *float_order,
                        *float_arith,
                    ) && row_verdict(
                        old(table).spec_schema().spec_columns(),
                        old(table).spec_schema().spec_table_constraints(),
                        padded(raw_rows@[k]@, old(table).spec_schema().spec_columns().len()),
                        *float_order,
                        *float_arith,
                        Err(e),
                    ) && final(table).spec_next_row() == successor_n(
                        old(table).spec_next_row(),
                        k as nat,
                    )
            },
        },
{
    let ghost f = *float_order;
    let ghost g = *float_arith;
    let ghost schema = table.spec_schema();
    let ghost orig = raw_rows@;
    let ghost start = table.spec_next_row();
    let ghost before = table.spec_rows();
    let total = raw_rows.len();
    let ncols = table.schema().columns().len();
    let mut raw = raw_rows;
    let mut staged: Vec<Row> = Vec::new();
    let mut k: usize = 0;
    while k < total
        invariant
            total == orig.len(),
            orig == raw_rows@,
            k <= total,
            raw@ == orig.subrange(k as int, total as int),
            ncols == schema.spec_columns().len(),
            schema == table.spec_schema(),
            table.spec_id() == old(table).spec_id(),
            table.spec_name() == old(table).spec_name(),
            table.spec_schema() == old(table).spec_schema(),
            table.spec_rows() == before,
            before == old(table).spec_rows(),
            table.wf(),
            start == old(table).spec_next_row(),
            table.spec_next_row() == successor_n(start, k as nat),
            f == *float_order,
            g == *float_arith,
            orders_floats(f),
            combines_floats(g),
            taken_before(schema, orig, k as int, f, g),
            staged@.len() == k,
            forall|j: int|
                0 <= j < k ==> (#[trigger] staged@[j]).spec_id() == RowId(successor_n(start, j as nat))
                    && staged@[j].spec_values() == padded(orig[j]@, ncols as nat),
            forall|m: int|
                0 <= m < orig.len() && taken_before(schema, orig, m, f, g) ==> {
                    let vals = padded((#[trigger] orig[m])@, ncols as nat);
                    reaches_checks(schema.spec_columns(), vals) ==> checks_from(
                        schema.spec_table_constraints(),
                        0,
                        schema.spec_columns(),
                        vals,
                        f,
                        g,
                    ) is Some
                },
        decreases total - k,
    {
        let mut vals = raw.remove(0);
        proof {
            assert(raw@ =~= orig.subrange(k as int + 1, total as int));
        }
        let ghost given = vals@;
        assert(given == orig[k as int]@);
        while vals.len() < ncols
            invariant
                given.len() <= vals@.len(),
                vals@.len() <= if given.len() < ncols {
                    ncols as int
                } else {
                    given.len() as int
                },
                vals@ =~= given + Seq::new(
                    (vals@.len() - given.len()) as nat,
                    |i: int| SqlValue::Null,
                ),
            decreases ncols - vals@.len(),
        {
            vals.push(SqlValue::Null);
        }
        proof {
            assert(vals@ =~= padded(given, ncols as nat));
        }
        let verdict = table.schema().validate_row(vals.as_slice(), float_order, float_arith);
        proof {
            lemma_verdict_takes(schema, vals@, f, g, verdict);
        }
        match verdict {
            Ok(()) => {},
            Err(e) => {
                proof {
                    let kk = k as int;
                    assert(vals@ == padded(orig[kk]@, ncols as nat));
                    assert(row_verdict(
                        schema.spec_columns(),
                        schema.spec_table_constraints(),
                        padded(orig[kk]@, ncols as nat),
                        f,
                        g,
                        Err(e),
                    ));
                    assert(!takes_values(schema, padded(orig[kk]@, ncols as nat), f, g));
                    if old(table).ids_fresh() && start + total <= u64::MAX {
                        lemma_successor_n(start, k as nat);
                    }
                    assert(orig == raw_rows@);
                    assert(0 <= kk < raw_rows@.len() && taken_before(
                        old(table).spec_schema(),
                        raw_rows@,
                        kk,
                        *float_order,
                        *float_arith,
                    ) && !takes_values(
                        old(table).spec_schema(),
                        padded(raw_rows@[kk]@, old(table).spec_schema().spec_columns().len()),
                        *float_order,
                        *float_arith,
                    ));
                }
                return Err(e);
            },
        }
        let id = table.next_row_id();
        staged.push(Row::with_id(id, vals));
        k = k + 1;
    }
    proof {
        assert forall|j: int| 0 <= j < staged@.len() implies (#[trigger] staged@[j]).spec_values().len()
            == ncols by {
            assert(takes_values(schema, padded(orig[j]@, ncols as nat), f, g));
        }
    }
    table.append_rows(staged);
    proof {
        if old(table).ids_fresh() && start + total <= u64::MAX {
            lemma_successor_n(start, total as nat);
            assert forall|j: int| 0 <= j < staged@.len() implies (#[trigger] staged@[j]).spec_id().0
                == start + j by {
                lemma_successor_n(start, j as nat);
            }
            let rows = table.spec_rows();
            assert forall|i: int, j: int| 0 <= i < j < rows.len() implies (#[trigger] rows[i]).spec_id().0
                < (#[trigger] rows[j]).spec_id().0 by {
                if i >= before.len() {
                    assert(rows[i] == staged@[i - before.len()]);
                    assert(rows[j] == staged@[j - before.len()]);
                } else if j >= before.len() {
                    assert(rows[i] == before[i]);
                    assert(rows[j] == staged@[j - before.len()]);
                } else {
                    assert(rows[i] == before[i]);
                    assert(rows[j] == before[j]);
                }
            }
            assert forall|i: int| 0 <= i < rows.len() implies (#[trigger] rows[i]).spec_id().0
                < table.spec_next_row() by {
                if i >= before.len() {
                    assert(rows[i] == staged@[i - before.len()]);
                } else {
                    assert(rows[i] == before[i]);
                }
            }
        }
        assert(table.spec_rows().take(before.len() as int) =~= before);
        assert forall|j: int| 0 <= j < table.spec_rows().len() implies (#[trigger] table.spec_rows()[j]).spec_values().len()
            == schema.spec_columns().len() by {
            if j >= before.len() {
                assert(table.spec_rows()[j] == staged@[j - before.len()]);
            } else {
                assert(table.spec_rows()[j] == before[j]);
            }
        }
    }
    Ok(total)
}

/// Index `i` holds the first assignment to the column with id `id`.
pub open spec fn is_first_assignment(assigns: Seq<(ColumnId, Expr)>, id: ColumnId, i: int) -> bool {
    &&& 0 <= i < assigns.len()
    &&& assigns[i].0 == id
    &&& forall|j: int| 0 <= j < i ==> (#[trigger] assigns[j]).0 != id
}

/// The expression assigned to the column with id `id`, if any.
pub open spec fn assignment_for(assigns: Seq<(ColumnId, Expr)>, id: ColumnId) -> Option<Expr> {
    if exists|i: int| is_first_assignment(assigns, id, i) {
        Some(assigns[choose|i: int| is_first_assignment(assigns, id, i)].1)
    } else {
        None
    }
}

fn find_assignment<'a>(assigns: &'a [(ColumnId, Expr)], id: ColumnId) -> (r: Option<&'a Expr>)
    ensures
        match r {
            Some(e) => assignment_for(assigns@, id) == Some(*e),
            None => assignment_for(assigns@, id) is None,
        },
{
    let mut i: usize = 0;
    while i < assigns.len()
        invariant
            i <= assigns@.len(),
            forall|j: int| 0 <= j < i ==> (#[trigger] assigns@[j]).0 != id,
        decreases assigns@.len() - i,
    {
        if assigns[i].0 == id {
            proof {
                let a = assigns@;
                assert(is_first_assignment(a, id, i as int));
                let c = choose|k: int| is_first_assignment(a, id, k);
                if c < i {
                    assert(a[c].0 != id);
                } else if c > i {
                    assert(a[i as int].0 != id);
                }
            }
            return Some(&assigns[i].1);
        }
        i = i + 1;
    }
    None
}

/// The values of a row after the assignments to its columns from column `c` on, with
/// `changed` telling whether an earlier column changed: each assigned expression is
/// evaluated over the row as it was, and a column changes where the new value differs
/// from the one it holds. `None` where an expression overflows.
pub open spec fn assigned_from<
    F: Fn(FloatOperand, FloatOperand) -> ValueOrder,
    G: Fn(ArithOp, FloatOperand, FloatOperand) -> u64,
>(
    assigns: Seq<(ColumnId, Expr)>,
    cols: Seq<ColumnDef>,
    row_vals: Seq<SqlValue>,
    c: int,
    vals: Seq<SqlValue>,
    changed: bool,
    f: F,
    g: G,
) -> Option<Result<(Seq<SqlValue>, bool), Seq<char>>>
    decreases cols.len() - c,
{
    if c < 0 || c >= cols.len() {
        Some(Ok((vals, changed)))
    } else {
        match assignment_for(assigns, cols[c].id) {
            None => assigned_from(assigns, cols, row_vals, c + 1, vals, changed, f, g),
            Some(e) => match spec_eval(e, cols, row_vals, f, g) {
                None => None,
                Some(Err(m)) => Some(Err(m)),
                Some(Ok(v)) => if value_eq(v, vals[c]) {
                    assigned_from(assigns, cols, row_vals, c + 1, vals, changed, f, g)
                } else {
                    assigned_from(assigns, cols, row_vals, c + 1, vals.update(c, v), true, f, g)
                },
            },
        }
    }
}

/// What UPDATE does with one row: `Some(Ok(Some(vals)))` where the row is selected and its
/// values change to `vals`, `Some(Ok(None))` where it stays, `Some(Err(m))` where the
/// condition or an assignment fails with message `m`, `None` where one overflows.
pub open spec fn row_update<
    F: Fn(FloatOperand, FloatOperand) -> ValueOrder,
    G: Fn(ArithOp, FloatOperand, FloatOperand) -> u64,
>(
    assigns: Seq<(ColumnId, Expr)>,
    predicate: Option<&Expr>,
    schema: Schema,
    row: Row,
    f: F,
    g: G,
) -> Option<Result<Option<Seq<SqlValue>>, Seq<char>>> {
    match row_selected(predicate, schema, row, f, g) {
        None => None,
        Some(Err(m)) => Some(Err(m)),
        Some(Ok(false)) => Some(Ok(None)),
        Some(Ok(true)) => match assigned_from(
            assigns,
            schema.spec_columns(),
            row.spec_values(),
            0,
            row.spec_values(),
            false,
            f,
            g,
        ) {
            None => None,
            Some(Err(m)) => Some(Err(m)),
            Some(Ok((vals, changed))) => if changed {
                Some(Ok(Some(vals)))
            } else {
                Some(Ok(None))
            },
        },
    }
}

/// Whether UPDATE gets past a row: the row stays, or its new values are ones the schema
/// takes.
pub open spec fn update_passes<
    F: Fn(FloatOperand, FloatOperand) -> ValueOrder,
    G: Fn(ArithOp, FloatOperand, FloatOperand) -> u64,
>(
    assigns: Seq<(ColumnId, Expr)>,
    predicate: Option<&Expr>,
    schema: Schema,
    row: Row,
    f: F,
    g: G,
) -> bool {
    match row_update(assigns, predicate, schema, row, f, g) {
        Some(Ok(None)) => true,
        Some(Ok(Some(vals))) => takes_values(schema, vals, f, g),
        _ => false,
    }
}

/// Whether UPDATE runs through a row without a panic: no expression overflows, and the
/// checks of new values run to an answer.
pub open spec fn update_completes<
    F: Fn(FloatOperand, FloatOperand) -> ValueOrder,
    G: Fn(ArithOp, FloatOperand, FloatOperand) -> u64,
>(
    assigns: Seq<(ColumnId, Expr)>,
    predicate: Option<&Expr>,
    schema: Schema,
    row: Row,
    f: F,
    g: G,
) -> bool {
    match row_update(assigns, predicate, schema, row, f, g) {
        None => false,
        Some(Ok(Some(vals))) => reaches_checks(schema.spec_columns(), vals) ==> checks_from(
            schema.spec_table_constraints(),
            0,
            schema.spec_columns(),
            vals,
            f,
            g,
        ) is Some,
        _ => true,
    }
}

/// The number of rows whose values UPDATE changes.
pub open spec fn changed_count<
    F: Fn(FloatOperand, FloatOperand) -> ValueOrder,
    G: Fn(ArithOp, FloatOperand, FloatOperand) -> u64,
>(
    assigns: Seq<(ColumnId, Expr)>,
    predicate: Option<&Expr>,
    schema: Schema,
    rows: Seq<Row>,
    f: F,
    g: G,
) -> nat
    decreases rows.len(),
{
    if rows.len() == 0 {
        0
    } else {
        changed_count(assigns, predicate, schema, rows.drop_last(), f, g) + if row_update(
            assigns,
            predicate,
            schema,
            rows.last(),
            f,
            g,
        ) matches Some(Ok(Some(_))) {
            1nat
        } else {
            0nat
        }
    }
}

/// Whether `vals` holds the same values as `svals`.
pub open spec fn same_values(vals: Seq<SqlValue>, svals: Seq<SqlValue>) -> bool {
    vals.len() == svals.len() && forall|j: int| 0 <= j < vals.len() ==> same_value(#[trigger] vals[j], svals[j])
}

fn assign_values<
    F: Fn(FloatOperand, FloatOperand) -> ValueOrder,
    G: Fn(ArithOp, FloatOperand, FloatOperand) -> u64,
>(
    assigns: &[(ColumnId, Expr)],
    schema: &Schema,
    row: &Row,
    float_order: &F,
    float_arith: &G,
) -> (r: Result<(Vec<SqlValue>, bool), DomainError>)
    requires
        orders_floats(*float_order),
        combines_floats(*float_arith),
        row.spec_values().len() == schema.spec_columns().len(),
        assigned_from(
            assigns@,
            schema.spec_columns(),
            row.spec_values(),
            0,
            row.spec_values(),
            false,
            *float_order,
            *float_arith,
        ) is Some,
    ensures
        match assigned_from(
            assigns@,
            schema.spec_columns(),
            row.spec_values(),
            0,
            row.spec_values(),
            false,
            *float_order,
            *float_arith,
        ) {
            Some(Ok((svals, changed))) => r matches Ok((vals, ch)) && ch == changed && same_values(
                vals@,
                svals,
            ),
            Some(Err(m)) => r matches Err(DomainError::EvaluationError(em)) && em@ == m,
            None => false,
        },
{
    let ghost f = *float_order;
    let ghost g = *float_arith;
    let ghost cols = schema.spec_columns();
    let ghost rv = row.spec_values();
    let ghost whole = assigned_from(assigns@, cols, rv, 0, rv, false, f, g);
    let n = schema.columns().len();
    let mut vals = row.copy_row().into_values();
    let mut changed = false;
    let ghost mut svals = rv;
    let mut c: usize = 0;
    while c < n
        invariant
            n == cols.len(),
            cols == schema.spec_columns(),
            rv == row.spec_values(),
            rv.len() == n,
            f == *float_order,
            g == *float_arith,
            orders_floats(f),
            combines_floats(g),
            c <= n,
            svals.len() == n,
            same_values(vals@, svals),
            assigned_from(assigns@, cols, rv, c as int, svals, changed, f, g) == whole,
            whole == assigned_from(assigns@, cols, rv, 0, rv, false, f, g),
            whole is Some,
        decreases n - c,
    {
        let id = schema.columns()[c].id;
        match find_assignment(assigns, id) {
            None => {},
            Some(e) => {
                let v = match eval_expr(e, schema, row, float_order, float_arith) {
                    Ok(v) => v,
                    Err(err) => {
                        proof {
                            let w = spec_eval(*e, cols, rv, f, g)->0->Err_0;
                            assert(assignment_for(assigns@, cols[c as int].id) == Some(*e));
                            assert(assigned_from(assigns@, cols, rv, c as int, svals, changed, f, g)
                                == Some(Err::<(Seq<SqlValue>, bool), Seq<char>>(w)));

                        }
                        return Err(err);
                    },
                };
                let ghost sv = spec_eval(*e, cols, rv, f, g)->0->Ok_0;
                if !v.equals(&vals[c]) {
                    proof {
                        assert(same_value(vals@[c as int], svals[c as int]));
                        assert(!value_eq(sv, svals[c as int]));
                        svals = svals.update(c as int, sv);
                    }
                    vals.set(c, v);
                    changed = true;
                } else {
                    proof {
                        assert(same_value(vals@[c as int], svals[c as int]));
                        assert(value_eq(sv, svals[c as int]));
                    }
                }
            },
        }
        c = c + 1;
    }
    Ok((vals, changed))
}

/// Whether UPDATE gets past each of the first `i` rows.
pub open spec fn passes_before<
    F: Fn(FloatOperand, FloatOperand) -> ValueOrder,
    G: Fn(ArithOp, FloatOperand, FloatOperand) -> u64,
>(
    assigns: Seq<(ColumnId, Expr)>,
    predicate: Option<&Expr>,
    schema: Schema,
    rows: Seq<Row>,
    i: int,
    f: F,
    g: G,
) -> bool {
    forall|j: int| 0 <= j < i ==> update_passes(assigns, predicate, schema, #[trigger] rows[j], f, g)
}

/// Whether `new_row` is what UPDATE makes of `old_row`: the same id with the new values
/// where its values change, the row itself otherwise.
pub open spec fn updated_as<
    F: Fn(FloatOperand, FloatOperand) -> ValueOrder,
    G: Fn(ArithOp, FloatOperand, FloatOperand) -> u64,
>(
    assigns: Seq<(ColumnId, Expr)>,
    predicate: Option<&Expr>,
    schema: Schema,
    old_row: Row,
    new_row: Row,
    f: F,
    g: G,
) -> bool {
    match row_update(assigns, predicate, schema, old_row, f, g) {
        Some(Ok(Some(vals))) => new_row.spec_id() == old_row.spec_id() && same_values(
            new_row.spec_values(),
            vals,
        ),
        _ => new_row == old_row,
    }
}

/// Whether UPDATE stops at a row with the error `e`: its condition or an assignment fails,
/// or the schema refuses its new values.
pub open spec fn update_fails_with<
    F: Fn(FloatOperand, FloatOperand) -> ValueOrder,
    G: Fn(ArithOp, FloatOperand, FloatOperand) -> u64,
>(
    assigns: Seq<(ColumnId, Expr)>,
    predicate: Option<&Expr>,
    schema: Schema,
    row: Row,
    e: DomainError,
    f: F,
    g: G,
) -> bool {
    match row_update(assigns, predicate, schema, row, f, g) {
        Some(Err(m)) => e matches DomainError::EvaluationError(em) && em@ == m,
        Some(Ok(Some(vals))) => !takes_values(schema, vals, f, g) && row_verdict(
            schema.spec_columns(),
            schema.spec_table_constraints(),
            vals,
            f,
            g,
            Err(e),
        ),
        _ => false,
    }
}

/// Sets columns of the rows on which `predicate` is true, or of every row without one, to
/// the values of their assigned expressions (the first assignment to a column counts),
/// evaluated over each row as it was. Rows whose values do not change are left alone;
/// every changed row is checked against the schema. All rows are decided first: the first
/// failure is the answer, with no row changed; otherwise the changes are made and their
/// number comes back. No assignment at all changes nothing.
pub fn handle_update<
    F: Fn(FloatOperand, FloatOperand) -> ValueOrder,
    G: Fn(ArithOp, FloatOperand, FloatOperand) -> u64,
>(
    table: &mut Table,
    assignments: &[(ColumnId, Expr)],
    predicate: Option<&Expr>,
    float_order: &F,
    float_arith: &G,
) -> (r: Result<usize, DomainError>)
    requires
        old(table).wf(),
        orders_floats(*float_order),
        combines_floats(*float_arith),
        forall|i: int|
            0 <= i < old(table).spec_rows().len() && passes_before(
                assignments@,
                predicate,
                old(table).spec_schema(),
                old(table).spec_rows(),
                i,
                *float_order,
                *float_arith,
            ) ==> update_completes(
                assignments@,
                predicate,
                old(table).spec_schema(),
                #[trigger] old(table).spec_rows()[i],
                *float_order,
                *float_arith,
            ),
    ensures
        final(table).wf(),
        old(table).ids_fresh() ==> final(table).ids_fresh(),
        final(table).spec_id() == old(table).spec_id(),
        final(table).spec_name() == old(table).spec_name(),
        final(table).spec_schema() == old(table).spec_schema(),
        final(table).spec_next_row() == old(table).spec_next_row(),
        assignments@.len() == 0 ==> r == Ok::<usize, DomainError>(0) && final(table).spec_rows()
            == old(table).spec_rows(),
        assignments@.len() > 0 ==> match r {
            Ok(n) => {
                &&& passes_before(
                    assignments@,
                    predicate,
                    old(table).spec_schema(),
                    old(table).spec_rows(),
                    old(table).spec_rows().len() as int,
                    *float_order,
                    *float_arith,
                )
                &&& n == changed_count(
                    assignments@,
                    predicate,
                    old(table).spec_schema(),
                    old(table).spec_rows(),
                    *float_order,
                    *float_arith,
                )
                &&& final(table).spec_rows().len() == old(table).spec_rows().len()
                &&& forall|i: int|
                    0 <= i < old(table).spec_rows().len() ==> updated_as(
                        assignments@,
                        predicate,
                        old(table).spec_schema(),
                        #[trigger] old(table).spec_rows()[i],
                        final(table).spec_rows()[i],
                        *float_order,
                        *float_arith,
                    )
            },
            Err(e) => {
                &&& final(table).spec_rows() == old(table).spec_rows()
                &&& exists|k: int|
                    0 <= k < old(table).spec_rows().len() && passes_before(
                        assignments@,
                        predicate,
                        old(table).spec_schema(),
                        old(table).spec_rows(),
                        k,
                        *float_order,
                        *float_arith,
                    ) && update_fails_with(
                        assignments@,
                        predicate,
                        old(table).spec_schema(),
                        #[trigger] old(table).spec_rows()[k],
                        e,
                        *float_order,
                        *float_arith,
                    )
            },
        },
{
    if assignments.len() == 0 {
        return Ok(0);
    }
    let ghost f = *float_order;
    let ghost g = *float_arith;
    let ghost schema = table.spec_schema();
    let ghost orig = table.spec_rows();
    let ghost a = assignments@;
    let mut staged: Vec<Option<Vec<SqlValue>>> = Vec::new();
    let mut count: usize = 0;
    let mut i: usize = 0;
    while i < table.rows().len()
        invariant
            *table == *old(table),
            table.wf(),
            schema == table.spec_schema(),
            orig == table.spec_rows(),
            a == assignments@,
            a.len() > 0,
            f == *float_order,
            g == *float_arith,
            orders_floats(f),
            combines_floats(g),
            i <= orig.len(),
            staged@.len() == i,
            count <= i,
            count == changed_count(a, predicate, schema, orig.take(i as int), f, g),
            passes_before(a, predicate, schema, orig, i as int, f, g),
            forall|j: int|
                0 <= j < i ==> match #[trigger] staged@[j] {
                    None => row_update(a, predicate, schema, orig[j], f, g) == Some(
                        Ok::<Option<Seq<SqlValue>>, Seq<char>>(None),
                    ),
                    Some(v) => row_update(a, predicate, schema, orig[j], f, g) matches Some(
                        Ok(Some(sv)),
                    ) && same_values(v@, sv),
                },
            forall|k: int|
                0 <= k < orig.len() && passes_before(a, predicate, schema, orig, k, f, g)
                    ==> update_completes(a, predicate, schema, #[trigger] orig[k], f, g),
        decreases orig.len() - i,
    {
        let row = &table.rows()[i];
        proof {
            assert(update_completes(a, predicate, schema, orig[i as int], f, g));
            assert(orig.take(i as int + 1).drop_last() =~= orig.take(i as int));
            assert(orig.take(i as int + 1).last() == orig[i as int]);
        }
        let selected = match predicate {
            Some(e) => match eval_where(e, table.schema(), row, float_order, float_arith) {
                Ok(b) => b,
                Err(err) => {
                    proof {
                        assert(update_fails_with(a, predicate, schema, orig[i as int], err, f, g));
                    }
                    return Err(err);
                },
            },
            None => true,
        };
        if !selected {
            staged.push(None);
        } else {
            let (vals, changed) = match assign_values(assignments, table.schema(), row, float_order, float_arith) {
                Ok(p) => p,
                Err(err) => {
                    proof {
                        assert(update_fails_with(a, predicate, schema, orig[i as int], err, f, g));
                    }
                    return Err(err);
                },
            };
            if !changed {
                staged.push(None);
            } else {
                let ghost sv = row_update(a, predicate, schema, orig[i as int], f, g)->0->Ok_0->0;
                let verdict = {
                    proof {
                        lemma_verdict_same_rows(
                            schema.spec_columns(),
                            schema.spec_table_constraints(),
                            sv,
                            vals@,
                            f,
                            g,
                            Ok(()),
                        );
                    }
                    table.schema().validate_row(vals.as_slice(), float_order, float_arith)
                };
                proof {
                    lemma_verdict_same_rows(
                        schema.spec_columns(),
                        schema.spec_table_constraints(),
                        sv,
                        vals@,
                        f,
                        g,
                        verdict,
                    );
                    lemma_verdict_takes(schema, sv, f, g, verdict);
                }
                match verdict {
                    Ok(()) => {},
                    Err(err) => {
                        proof {
                            assert(update_fails_with(a, predicate, schema, orig[i as int], err, f, g));
                        }
                        return Err(err);
                    },
                }
                staged.push(Some(vals));
                count = count + 1;
            }
        }
        i = i + 1;
    }
    let total = table.rows().len();
    let ghost st = staged@;
    let mut old_rows = table.take_rows();
    let mut rebuilt: Vec<Row> = Vec::new();
    let mut k: usize = 0;
    while k < total
        invariant
            total == orig.len(),
            k <= total,
            st.len() == total,
            old_rows@ == orig.subrange(k as int, total as int),
            staged@ == st.subrange(k as int, total as int),
            rebuilt@.len() == k,
            forall|j: int|
                0 <= j < total ==> match #[trigger] st[j] {
                    None => row_update(a, predicate, schema, orig[j], f, g) == Some(
                        Ok::<Option<Seq<SqlValue>>, Seq<char>>(None),
                    ),
                    Some(v) => row_update(a, predicate, schema, orig[j], f, g) matches Some(
                        Ok(Some(sv)),
                    ) && same_values(v@, sv),
                },
            forall|j: int|
                0 <= j < k ==> updated_as(a, predicate, schema, #[trigger] orig[j], rebuilt@[j], f, g),
        decreases total - k,
    {
        let row = old_rows.remove(0);
        let entry = staged.remove(0);
        proof {
            assert(old_rows@ =~= orig.subrange(k as int + 1, total as int));
            assert(staged@ =~= st.subrange(k as int + 1, total as int));
            assert(entry == st[k as int]);
        }
        match entry {
            None => rebuilt.push(row),
            Some(vals) => rebuilt.push(Row::with_id(row.id(), vals)),
        }
        k = k + 1;
    }
    proof {
        assert forall|j: int| 0 <= j < rebuilt@.len() implies (#[trigger] rebuilt@[j]).spec_values().len()
            == schema.spec_columns().len() by {
            assert(updated_as(a, predicate, schema, orig[j], rebuilt@[j], f, g));
            assert(update_passes(a, predicate, schema, orig[j], f, g));
        }
        assert(orig.take(total as int) =~= orig);
        assert forall|j: int| 0 <= j < total implies (#[trigger] rebuilt@[j]).spec_id() == orig[j].spec_id() by {
            assert(updated_as(a, predicate, schema, orig[j], rebuilt@[j], f, g));
        }
    }
    table.put_rows(rebuilt);
    Ok(count)
}

/// A data manipulation statement on one table.
#[derive(Debug)]
pub enum DmlAction {
    /// INSERT of one or more rows.
    Insert { rows: Vec<Vec<SqlValue>> },
    /// UPDATE: expressions assigned to columns, and the rows' condition.
    Update { assignments: Vec<(ColumnId, Expr)>, predicate: Option<Expr> },
    /// DELETE of the rows that meet the condition.
    Delete { predicate: Option<Expr> },
}

/// The condition held in an option, by reference.
pub open spec fn opt_ref(p: &Option<Expr>) -> Option<&Expr> {
    match p {
        Some(e) => Some(e),
        None => None,
    }
}

/// Whether running a statement on a table ends without a panic: no expression overflows
/// and every check runs to an answer, on the rows the statement gets to.
pub open spec fn dml_completes<
    F: Fn(FloatOperand, FloatOperand) -> ValueOrder,
    G: Fn(ArithOp, FloatOperand, FloatOperand) -> u64,
>(table: Table, action: DmlAction, f: F, g: G) -> bool {
    let schema = table.spec_schema();
    let rows = table.spec_rows();
    match action {
        DmlAction::Insert { rows: raw } => forall|k: int|
            0 <= k < raw@.len() && taken_before(schema, raw@, k, f, g) ==> {
                let vals = padded((#[trigger] raw@[k])@, schema.spec_columns().len());
                reaches_checks(schema.spec_columns(), vals) ==> checks_from(
                    schema.spec_table_constraints(),
                    0,
                    schema.spec_columns(),
                    vals,
                    f,
                    g,
                ) is Some
            },
        DmlAction::Update { assignments, predicate } => forall|i: int|
            0 <= i < rows.len() && passes_before(
                assignments@,
                opt_ref(&predicate),
                schema,
                rows,
                i,
                f,
                g,
            ) ==> update_completes(assignments@, opt_ref(&predicate), schema, #[trigger] rows[i], f, g),
        DmlAction::Delete { predicate } => forall|i: int|
            0 <= i < rows.len() && decided_before(opt_ref(&predicate), schema, rows, i, f, g)
                ==> row_selected(opt_ref(&predicate), schema, #[trigger] rows[i], f, g) is Some,
    }
}

/// Whether a statement keeps the row ids of a table fresh: an INSERT whose ids stay
/// within `u64`, or any other statement.
pub open spec fn ids_stay_in_range(table: Table, action: DmlAction) -> bool {
    match action {
        DmlAction::Insert { rows } => table.spec_next_row() + rows@.len() <= u64::MAX,
        _ => true,
    }
}

/// What running a statement does to a table, `before` and `after`, and what it answers.
pub open spec fn dml_outcome<
    F: Fn(FloatOperand, FloatOperand) -> ValueOrder,
    G: Fn(ArithOp, FloatOperand, FloatOperand) -> u64,
>(before: Table, after: Table, action: DmlAction, r: Result<DmlResult, DomainError>, f: F, g: G) -> bool {
    match action {
        DmlAction::Insert { rows } => {
            &&& (r is Ok ==> r == Ok::<DmlResult, DomainError>(DmlResult::Inserted(rows@.len() as usize)))
            &&& ({
                let r = match r {
                    Ok(_) => Ok::<usize, DomainError>(rows@.len() as usize),
                    Err(e) => Err(e),
                };
                match r {
                    Ok(n) => {
                        &&& n == rows@.len()
                        &&& taken_before(
                            before.spec_schema(),
                            rows@,
                            n as int,
                            f,
                            g,
                        )
                        &&& after.spec_rows().len() == before.spec_rows().len() + n
                        &&& after.spec_rows().take(before.spec_rows().len() as int)
                            == before.spec_rows()
                        &&& forall|j: int|
                            0 <= j < n ==> {
                                let row = #[trigger] after.spec_rows()[before.spec_rows().len() + j];
                                &&& row.spec_id() == RowId(successor_n(before.spec_next_row(), j as nat))
                                &&& row.spec_values() == padded(
                                    rows@[j]@,
                                    before.spec_schema().spec_columns().len(),
                                )
                            }
                        &&& after.spec_next_row() == successor_n(before.spec_next_row(), n as nat)
                    },
                    Err(e) => {
                        &&& after.spec_rows() == before.spec_rows()
                        &&& exists|k: int|
                            0 <= k < rows@.len() && taken_before(
                                before.spec_schema(),
                                rows@,
                                k,
                                f,
                                g,
                            ) && !takes_values(
                                before.spec_schema(),
                                padded(
                                    (#[trigger] rows@[k])@,
                                    before.spec_schema().spec_columns().len(),
                                ),
                                f,
                                g,
                            ) && row_verdict(
                                before.spec_schema().spec_columns(),
                                before.spec_schema().spec_table_constraints(),
                                padded(rows@[k]@, before.spec_schema().spec_columns().len()),
                                f,
                                g,
                                Err(e),
                            ) && after.spec_next_row() == successor_n(
                                before.spec_next_row(),
                                k as nat,
                            )
                    },
                }
            })
        },
        DmlAction::Update { assignments, predicate } => {
            &&& (r is Ok ==> r matches Ok(DmlResult::Updated(_)))
            &&& ({
                let r = match r {
                    Ok(DmlResult::Updated(n)) => Ok::<usize, DomainError>(n),
                    Ok(_) => Ok::<usize, DomainError>(0),
                    Err(e) => Err(e),
                };
                &&& (assignments@.len() == 0 ==> r == Ok::<usize, DomainError>(0)
                    && after.spec_rows() == before.spec_rows())
                &&& (assignments@.len() > 0 ==> match r {
                    Ok(n) => {
                        &&& passes_before(
                            assignments@,
                            opt_ref(&predicate),
                            before.spec_schema(),
                            before.spec_rows(),
                            before.spec_rows().len() as int,
                            f,
                            g,
                        )
                        &&& n == changed_count(
                            assignments@,
                            opt_ref(&predicate),
                            before.spec_schema(),
                            before.spec_rows(),
                            f,
                            g,
                        )
                        &&& after.spec_rows().len() == before.spec_rows().len()
                        &&& forall|i: int|
                            0 <= i < before.spec_rows().len() ==> updated_as(
                                assignments@,
                                opt_ref(&predicate),
                                before.spec_schema(),
                                #[trigger] before.spec_rows()[i],
                                after.spec_rows()[i],
                                f,
                                g,
                            )
                    },
                    Err(e) => {
                        &&& after.spec_rows() == before.spec_rows()
                        &&& exists|k: int|
                            0 <= k < before.spec_rows().len() && passes_before(
                                assignments@,
                                opt_ref(&predicate),
                                before.spec_schema(),
                                before.spec_rows(),
                                k,
                                f,
                                g,
                            ) && update_fails_with(
                                assignments@,
                                opt_ref(&predicate),
                                before.spec_schema(),
                                #[trigger] before.spec_rows()[k],
                                e,
                                f,
                                g,
                            )
                    },
        })
            })
        },
        DmlAction::Delete { predicate } => {
            &&& (r is Ok ==> r matches Ok(DmlResult::Deleted(_)))
            &&& ({
                let r = match r {
                    Ok(DmlResult::Deleted(n)) => Ok::<usize, DomainError>(n),
                    Ok(_) => Ok::<usize, DomainError>(0),
                    Err(e) => Err(e),
                };
                match r {
                    Ok(n) => {
                        &&& decided_before(
                            opt_ref(&predicate),
                            before.spec_schema(),
                            before.spec_rows(),
                            before.spec_rows().len() as int,
                            f,
                            g,
                        )
                        &&& after.spec_rows() == rows_kept(
                            opt_ref(&predicate),
                            before.spec_schema(),
                            before.spec_rows(),
                            f,
                            g,
                        )
                        &&& n == before.spec_rows().len() - after.spec_rows().len()
                    },
                    Err(e) => {
                        &&& after.spec_rows() == before.spec_rows()
                        &&& exists|k: int|
                            0 <= k < before.spec_rows().len() && decided_before(
                                opt_ref(&predicate),
                                before.spec_schema(),
                                before.spec_rows(),
                                k,
                                f,
                                g,
                            ) && (row_selected(
                                opt_ref(&predicate),
                                before.spec_schema(),
                                #[trigger] before.spec_rows()[k],
                                f,
                                g,
                            ) matches Some(Err(m)) && e matches DomainError::EvaluationError(em) && em@
                                == m)
                    },
                }
            })
        },
    }
}

/// Runs a statement on a table: INSERT answers how many rows it added, UPDATE how many it
/// changed, DELETE how many it removed, each as `handle_insert`, `handle_update` and
/// `handle_delete` do.
pub fn execute_dml<
    F: Fn(FloatOperand, FloatOperand) -> ValueOrder,
    G: Fn(ArithOp, FloatOperand, FloatOperand) -> u64,
>(table: &mut Table, action: DmlAction, float_order: &F, float_arith: &G) -> (r: Result<
    DmlResult,
    DomainError,
>)
    requires
        old(table).wf(),
        orders_floats(*float_order),
        combines_floats(*float_arith),
        dml_completes(*old(table), action, *float_order, *float_arith),
    ensures
        final(table).wf(),
        old(table).ids_fresh() && ids_stay_in_range(*old(table), action) ==> final(table).ids_fresh(),
        final(table).spec_id() == old(table).spec_id(),
        final(table).spec_schema() == old(table).spec_schema(),
        dml_outcome(*old(table), *final(table), action, r, *float_order, *float_arith),
{
    match action {
        DmlAction::Insert { rows } => match handle_insert(table, rows, float_order, float_arith) {
            Ok(n) => Ok(DmlResult::Inserted(n)),
            Err(e) => Err(e),
        },
        DmlAction::Update { assignments, predicate } => match handle_update(
            table,
            assignments.as_slice(),
            predicate.as_ref(),
            float_order,
            float_arith,
        ) {
            Ok(n) => Ok(DmlResult::Updated(n)),
            Err(e) => Err(e),
        },
        DmlAction::Delete { predicate } => match handle_delete(
            table,
            predicate.as_ref(),
            float_order,
            float_arith,
        ) {
            Ok(n) => Ok(DmlResult::Deleted(n)),
            Err(e) => Err(e),
        },
    }
}

impl Table {
    /// Runs a statement on the table, as `execute_dml` does.
    pub fn execute_dml<
        F: Fn(FloatOperand, FloatOperand) -> ValueOrder,
        G: Fn(ArithOp, FloatOperand, FloatOperand) -> u64,
    >(&mut self, action: DmlAction, float_order: &F, float_arith: &G) -> (r: Result<
        DmlResult,
        DomainError,
    >)
        requires
            old(self).wf(),
            orders_floats(*float_order),
            combines_floats(*float_arith),
            dml_completes(*old(self), action, *float_order, *float_arith),
        ensures
            final(self).wf(),
            old(self).ids_fresh() && ids_stay_in_range(*old(self), action) ==> final(self).ids_fresh(),
            final(self).spec_id() == old(self).spec_id(),
            final(self).spec_schema() == old(self).spec_schema(),
            dml_outcome(*old(self), *final(self), action, r, *float_order, *float_arith),
    {
        execute_dml(self, action, float_order, float_arith)
    }

    /// Inserts one row, as `handle_insert` does; answers 1 when the schema takes it.
    pub fn insert<
        F: Fn(FloatOperand, FloatOperand) -> ValueOrder,
        G: Fn(ArithOp, FloatOperand, FloatOperand) -> u64,
    >(&mut self, row_values: Vec<SqlValue>, float_order: &F, float_arith: &G) -> (r: Result<
        usize,
        DomainError,
    >)
        requires
            old(self).wf(),
            orders_floats(*float_order),
            combines_floats(*float_arith),
            reaches_checks(
                old(self).spec_schema().spec_columns(),
                padded(row_values@, old(self).spec_schema().spec_columns().len()),
            ) ==> checks_from(
                old(self).spec_schema().spec_table_constraints(),
                0,
                old(self).spec_schema().spec_columns(),
                padded(row_values@, old(self).spec_schema().spec_columns().len()),
                *float_order,
                *float_arith,
            ) is Some,
        ensures
            final(self).wf(),
            old(self).ids_fresh() && old(self).spec_next_row() < u64::MAX ==> final(self).ids_fresh(),
            final(self).spec_id() == old(self).spec_id(),
            final(self).spec_name() == old(self).spec_name(),
            final(self).spec_schema() == old(self).spec_schema(),
            r is Ok <==> takes_values(
                old(self).spec_schema(),
                padded(row_values@, old(self).spec_schema().spec_columns().len()),
                *float_order,
                *float_arith,
            ),
            r is Ok ==> {
                &&& r == Ok::<usize, DomainError>(1)
                &&& final(self).spec_rows().len() == old(self).spec_rows().len() + 1
                &&& final(self).spec_rows().take(old(self).spec_rows().len() as int) == old(
                    self,
                ).spec_rows()
                &&& final(self).spec_rows()[old(self).spec_rows().len() as int].spec_id() == RowId(
                    old(self).spec_next_row(),
                )
                &&& final(self).spec_rows()[old(self).spec_rows().len() as int].spec_values()
                    == padded(row_values@, old(self).spec_schema().spec_columns().len())
                &&& final(self).spec_next_row() == spec_successor(old(self).spec_next_row())
            },
            r is Err ==> final(self).spec_rows() == old(self).spec_rows() && final(self).spec_next_row()
                == old(self).spec_next_row(),
    {
        let ghost vals = row_values@;
        let rows = vec![row_values];
        assert(rows@[0]@ == vals);
        let r = handle_insert(self, rows, float_order, float_arith);
        proof {
            assert(successor_n(old(self).spec_next_row(), 0) == old(self).spec_next_row());
            assert(successor_n(old(self).spec_next_row(), 1) == spec_successor(
                successor_n(old(self).spec_next_row(), 0),
            ));
            if r is Ok {
                let base = old(self).spec_rows().len() as int;
                let row = self.spec_rows()[base + 0];
                assert(row.spec_id() == RowId(successor_n(old(self).spec_next_row(), 0)));
                assert(row.spec_values() == padded(rows@[0]@, old(self).spec_schema().spec_columns().len()));
            }
        }
        r
    }

    /// Inserts several rows, all or none, as `handle_insert` does.
    pub fn insert_batch<
        F: Fn(FloatOperand, FloatOperand) -> ValueOrder,
        G: Fn(ArithOp, FloatOperand, FloatOperand) -> u64,
    >(&mut self, rows: Vec<Vec<SqlValue>>, float_order: &F, float_arith: &G) -> (r: Result<
        usize,
        DomainError,
    >)
        requires
            old(self).wf(),
            orders_floats(*float_order),
            combines_floats(*float_arith),
            forall|k: int|
                0 <= k < rows@.len() && taken_before(
                    old(self).spec_schema(),
                    rows@,
                    k,
                    *float_order,
                    *float_arith,
                ) ==> {
                    let vals = padded(
                        (#[trigger] rows@[k])@,
                        old(self).spec_schema().spec_columns().len(),
                    );
                    reaches_checks(old(self).spec_schema().spec_columns(), vals) ==> checks_from(
                        old(self).spec_schema().spec_table_constraints(),
                        0,
                        old(self).spec_schema().spec_columns(),
                        vals,
                        *float_order,
                        *float_arith,
                    ) is Some
                },
        ensures
            final(self).wf(),
            old(self).ids_fresh() && old(self).spec_next_row() + rows@.len() <= u64::MAX
                ==> final(self).ids_fresh(),
            final(self).spec_id() == old(self).spec_id(),
            final(self).spec_name() == old(self).spec_name(),
            final(self).spec_schema() == old(self).spec_schema(),
            r is Ok <==> taken_before(
                old(self).spec_schema(),
                rows@,
                rows@.len() as int,
                *float_order,
                *float_arith,
            ),
            r is Ok ==> {
                &&& r == Ok::<usize, DomainError>(rows@.len() as usize)
                &&& final(self).spec_rows().len() == old(self).spec_rows().len() + rows@.len()
                &&& final(self).spec_rows().take(old(self).spec_rows().len() as int) == old(
                    self,
                ).spec_rows()
                &&& forall|j: int|
                    0 <= j < rows@.len() ==> {
                        let row = #[trigger] final(self).spec_rows()[old(self).spec_rows().len() + j];
                        &&& row.spec_id() == RowId(successor_n(old(self).spec_next_row(), j as nat))
                        &&& row.spec_values() == padded(
                            rows@[j]@,
                            old(self).spec_schema().spec_columns().len(),
                        )
                    }
                &&& final(self).spec_next_row() == successor_n(
                    old(self).spec_next_row(),
                    rows@.len() as nat,
                )
            },
            r is Err ==> final(self).spec_rows() == old(self).spec_rows(),
    {
        handle_insert(self, rows, float_order, float_arith)
    }
}

/// DELETE keeps exactly the rows on which the condition is not true, in their order.
pub proof fn lemma_delete_keeps_unselected<
    F: Fn(FloatOperand, FloatOperand) -> ValueOrder,
    G: Fn(ArithOp, FloatOperand, FloatOperand) -> u64,
>(predicate: Option<&Expr>, schema: Schema, rows: Seq<Row>, f: F, g: G)
    ensures
        rows_kept(predicate, schema, rows, f, g) == rows.filter(
            |r: Row| row_selected(predicate, schema, r, f, g) != Some(Ok::<bool, Seq<char>>(true)),
        ),
    decreases rows.len(),
{
    let keep = |r: Row| row_selected(predicate, schema, r, f, g) != Some(Ok::<bool, Seq<char>>(true));
    if rows.len() > 0 {
        lemma_delete_keeps_unselected(predicate, schema, rows.drop_last(), f, g);
        assert(rows_kept(predicate, schema, rows.drop_last(), f, g) == rows.drop_last().filter(keep));
        reveal_with_fuel(Seq::filter, 1);
        assert(rows.filter(keep) == (if keep(rows.last()) {
            rows.drop_last().filter(keep).push(rows.last())
        } else {
            rows.drop_last().filter(keep)
        }));
    } else {
        assert(rows.filter(keep) == rows);
    }
}

/// The values INSERT stores for a row: the given values, then NULL up to the number of
/// columns.
pub proof fn lemma_padded_values(vals: Seq<SqlValue>, n: nat)
    ensures
        padded(vals, n).len() == if vals.len() < n {
            n as int
        } else {
            vals.len() as int
        },
        forall|i: int| 0 <= i < vals.len() ==> #[trigger] padded(vals, n)[i] == vals[i],
        forall|i: int| vals.len() <= i < n ==> #[trigger] padded(vals, n)[i] == SqlValue::Null,
{
}

/// DELETE without a condition removes every row.
pub proof fn lemma_delete_without_condition<
    F: Fn(FloatOperand, FloatOperand) -> ValueOrder,
    G: Fn(ArithOp, FloatOperand, FloatOperand) -> u64,
>(schema: Schema, rows: Seq<Row>, f: F, g: G)
    ensures
        rows_kept(None, schema, rows, f, g) == Seq::<Row>::empty(),
    decreases rows.len(),
{
    if rows.len() > 0 {
        lemma_delete_without_condition(schema, rows.drop_last(), f, g);
    }
}

/// UPDATE and DELETE with a condition that is false on every row change nothing.
pub proof fn lemma_nothing_selected<
    F: Fn(FloatOperand, FloatOperand) -> ValueOrder,
    G: Fn(ArithOp, FloatOperand, FloatOperand) -> u64,
>(assigns: Seq<(ColumnId, Expr)>, predicate: Option<&Expr>, schema: Schema, rows: Seq<Row>, f: F, g: G)
    requires
        forall|i: int|
            0 <= i < rows.len() ==> row_selected(predicate, schema, #[trigger] rows[i], f, g)
                == Some(Ok::<bool, Seq<char>>(false)),
    ensures
        rows_kept(predicate, schema, rows, f, g) == rows,
        changed_count(assigns, predicate, schema, rows, f, g) == 0,
        forall|i: int|
            0 <= i < rows.len() ==> updated_as(assigns, predicate, schema, #[trigger] rows[i], rows[i], f, g),
    decreases rows.len(),
{
    if rows.len() > 0 {
        let front = rows.drop_last();
        assert forall|i: int| 0 <= i < front.len() implies row_selected(predicate, schema, #[trigger] front[i], f, g)
            == Some(Ok::<bool, Seq<char>>(false)) by {
            assert(front[i] == rows[i]);
        }
        lemma_nothing_selected(assigns, predicate, schema, front, f, g);
        assert(row_selected(predicate, schema, rows[rows.len() - 1], f, g) == Some(Ok::<bool, Seq<char>>(false)));
        assert(front.push(rows.last()) =~= rows);
    }
}

/// The rows DELETE keeps have increasing ids below `next` where the table's rows do.
proof fn lemma_rows_kept_ids<
    F: Fn(FloatOperand, FloatOperand) -> ValueOrder,
    G: Fn(ArithOp, FloatOperand, FloatOperand) -> u64,
>(predicate: Option<&Expr>, schema: Schema, rows: Seq<Row>, next: u64, f: F, g: G)
    requires
        forall|i: int, j: int|
            0 <= i < j < rows.len() ==> (#[trigger] rows[i]).spec_id().0 < (#[trigger] rows[j]).spec_id().0,
        forall|i: int| 0 <= i < rows.len() ==> (#[trigger] rows[i]).spec_id().0 < next,
    ensures
        ({
            let kept = rows_kept(predicate, schema, rows, f, g);
            &&& forall|i: int, j: int|
                0 <= i < j < kept.len() ==> (#[trigger] kept[i]).spec_id().0 < (#[trigger] kept[j]).spec_id().0
            &&& forall|i: int| 0 <= i < kept.len() ==> (#[trigger] kept[i]).spec_id().0 < next
        }),
    decreases rows.len(),
{
    lemma_rows_kept_from(predicate, schema, rows, f, g);
    if rows.len() > 0 {
        let front = rows.drop_last();
        lemma_rows_kept_ids(predicate, schema, front, next, f, g);
        lemma_rows_kept_from(predicate, schema, front, f, g);
        let rest = rows_kept(predicate, schema, front, f, g);
        let kept = rows_kept(predicate, schema, rows, f, g);
        assert forall|i: int| 0 <= i < rest.len() implies (#[trigger] rest[i]).spec_id().0
            < rows.last().spec_id().0 by {
            let m = choose|m: int| 0 <= m < front.len() && front[m] == rest[i];
            assert(rows[m] == rest[i]);
            assert(rows[rows.len() - 1] == rows.last());
        }
        assert forall|i: int, j: int| 0 <= i < j < kept.len() implies (#[trigger] kept[i]).spec_id().0
            < (#[trigger] kept[j]).spec_id().0 by {
            assert(kept[i] == rest[i]);
            if j < rest.len() {
                assert(kept[j] == rest[j]);
            } else {
                assert(kept[j] == rows.last());
            }
        }
        assert forall|i: int| 0 <= i < kept.len() implies (#[trigger] kept[i]).spec_id().0 < next by {
            let m = choose|m: int| 0 <= m < rows.len() && rows[m] == kept[i];
        }
    }
}

proof fn lemma_rows_kept_from<
    F: Fn(FloatOperand, FloatOperand) -> ValueOrder,
    G: Fn(ArithOp, FloatOperand, FloatOperand) -> u64,
>(predicate: Option<&Expr>, schema: Schema, rows: Seq<Row>, f: F, g: G)
    ensures
        forall|j: int|
            0 <= j < rows_kept(predicate, schema, rows, f, g).len() ==> exists|m: int|
                0 <= m < rows.len() && rows[m] == #[trigger] rows_kept(predicate, schema, rows, f, g)[j],
    decreases rows.len(),
{
    if rows.len() > 0 {
        lemma_rows_kept_from(predicate, schema, rows.drop_last(), f, g);
        let kept = rows_kept(predicate, schema, rows, f, g);
        let rest = rows_kept(predicate, schema, rows.drop_last(), f, g);
        assert forall|j: int| 0 <= j < kept.len() implies exists|m: int|
            0 <= m < rows.len() && rows[m] == #[trigger] kept[j] by {
            if j < rest.len() {
                assert(kept[j] == rest[j]);
                let m = choose|m: int| 0 <= m < rows.drop_last().len() && rows.drop_last()[m] == rest[j];
                assert(rows[m] == kept[j]);
            } else {
                assert(kept[j] == rows.last());
                assert(rows[rows.len() - 1] == kept[j]);
            }
        }
    }
}

proof fn lemma_rows_kept_len<
    F: Fn(FloatOperand, FloatOperand) -> ValueOrder,
    G: Fn(ArithOp, FloatOperand, FloatOperand) -> u64,
>(predicate: Option<&Expr>, schema: Schema, rows: Seq<Row>, f: F, g: G)
    ensures
        rows_kept(predicate, schema, rows, f, g).len() <= rows.len(),
    decreases rows.len(),
{
    if rows.len() > 0 {
        lemma_rows_kept_len(predicate, schema, rows.drop_last(), f, g);
    }
}

} // verus!
