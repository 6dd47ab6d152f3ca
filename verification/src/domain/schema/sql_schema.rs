use vstd::prelude::*;

use crate::domain::expr::evaluator::{
    column_id_text, combines_floats, eval_expr, lemma_eval_same_rows, orders_floats, outcomes_agree, spec_eval,
};
use crate::domain::id::ColumnId;
use crate::domain::schema::sql_column::ColumnDef;
use crate::domain::schema::table_constraint::TableConstraint;
use crate::domain::sql_row::Row;
use crate::domain::types::arithmetic::ArithOp;
use crate::domain::types::cast::{spec_type_label, type_label};
use crate::domain::types::ordering::{FloatOperand, ValueOrder};
use crate::domain::types::sql_type::SqlType;
use crate::domain::types::sql_value::{
    same_value, spec_matches_type, spec_variant_name, SqlValue,
};
use crate::error::DomainError;
use crate::text::{nat_digits, str_to_lowercase, to_lowercase, u64_to_decimal};

verus! {

/// Whether two strings are equal once ASCII letters are lowercased, as
/// `str::eq_ignore_ascii_case` decides.
pub open spec fn ascii_lower(c: char) -> char {
    if 'A' <= c && c <= 'Z' {
        ((c as u32) + 32) as char
    } else {
        c
    }
}

pub open spec fn eq_ignore_ascii_case(a: Seq<char>, b: Seq<char>) -> bool {
    a.len() == b.len() && forall|i: int| 0 <= i < a.len() ==> ascii_lower(#[trigger] a[i]) == ascii_lower(b[i])
}

fn ascii_lower_exec(c: char) -> (r: char)
    ensures
        r == ascii_lower(c),
{
    if 'A' <= c && c <= 'Z' {
        let b = (c as u8) + 32;
        assert(b as char == ((c as u32) + 32) as char);
        b as char
    } else {
        c
    }
}

/// Compares two strings with ASCII letters folded to lowercase, as
/// `str::eq_ignore_ascii_case` does.
fn str_eq_ignore_ascii_case(a: &str, b: &str) -> (r: bool)
    ensures
        r == eq_ignore_ascii_case(a@, b@),
{
    let n = a.unicode_len();
    if n != b.unicode_len() {
        return false;
    }
    let mut i: usize = 0;
    while i < n
        invariant
            n == a@.len(),
            n == b@.len(),
            i <= n,
            forall|j: int| 0 <= j < i ==> ascii_lower(#[trigger] a@[j]) == ascii_lower(b@[j]),
        decreases n - i,
    {
        if ascii_lower_exec(a.get_char(i)) != ascii_lower_exec(b.get_char(i)) {
            return false;
        }
        i = i + 1;
    }
    true
}

/// The part of a string after its first '.', if it has one.
pub open spec fn after_first_dot(s: Seq<char>) -> Option<Seq<char>> {
    if s.contains('.') {
        let i = choose|i: int| 0 <= i < s.len() && s[i] == '.' && forall|j: int| 0 <= j < i ==> s[j] != '.';
        Some(s.subrange(i + 1, s.len() as int))
    } else {
        None
    }
}

/// The parts before and after the first '.', as `str::split_once('.')` gives them.
fn split_once_dot(s: &str) -> (r: Option<(&str, &str)>)
    ensures
        match r {
            Some((a, b)) => s@ == a@ + seq!['.'] + b@ && !a@.contains('.'),
            None => !s@.contains('.'),
        },
{
    let n = s.unicode_len();
    let mut i: usize = 0;
    while i < n
        invariant
            n == s@.len(),
            i <= n,
            forall|j: int| 0 <= j < i ==> s@[j] != '.',
        decreases n - i,
    {
        if s.get_char(i) == '.' {
            let a = s.substring_char(0, i);
            let b = s.substring_char(i + 1, n);
            proof {
                assert(s@ =~= a@ + seq!['.'] + b@);
                assert forall|j: int| 0 <= j < a@.len() implies a@[j] != '.' by {
                    assert(a@[j] == s@[j]);
                }
            }
            return Some((a, b));
        }
        i = i + 1;
    }
    None
}

/// Index `i` holds the first column whose name matches `name` regardless of ASCII case.
pub open spec fn is_first_named(cols: Seq<ColumnDef>, name: Seq<char>, i: int) -> bool {
    &&& 0 <= i < cols.len()
    &&& eq_ignore_ascii_case(cols[i].name@, name)
    &&& forall|j: int| 0 <= j < i ==> !eq_ignore_ascii_case(#[trigger] cols[j].name@, name)
}

pub open spec fn has_named(cols: Seq<ColumnDef>, name: Seq<char>) -> bool {
    exists|i: int| 0 <= i < cols.len() && eq_ignore_ascii_case(#[trigger] cols[i].name@, name)
}

/// How `Schema::index_of` resolves a name: the first column with that name, or, when no
/// column has it and the name is qualified as `table.column`, the first column named by
/// the part after the first '.'.
pub open spec fn resolves_to(cols: Seq<ColumnDef>, name: Seq<char>, i: int) -> bool {
    ||| is_first_named(cols, name, i)
    ||| (!has_named(cols, name) && match after_first_dot(name) {
        Some(rest) => is_first_named(cols, rest, i),
        None => false,
    })
}

/// Index `i` holds the first column with id `id`.
pub open spec fn is_first_with_id(cols: Seq<ColumnDef>, id: ColumnId, i: int) -> bool {
    &&& 0 <= i < cols.len()
    &&& cols[i].id == id
    &&& forall|j: int| 0 <= j < i ==> (#[trigger] cols[j]).id != id
}

/// The position of the first column with id `id`, if any column has it.
pub open spec fn position_of_id(cols: Seq<ColumnDef>, id: ColumnId) -> Option<int> {
    if exists|i: int| is_first_with_id(cols, id, i) {
        Some(choose|i: int| is_first_with_id(cols, id, i))
    } else {
        None
    }
}

/// Whether a value breaks the rules of its column: NULL where the column refuses NULL, or
/// a value of another type.
pub open spec fn breaks_column(col: ColumnDef, v: SqlValue) -> bool {
    if v is Null {
        !col.nullable
    } else {
        !spec_matches_type(v, col.sql_type)
    }
}

/// Index `k` holds the first value that breaks the rules of its column.
pub open spec fn is_first_breach(cols: Seq<ColumnDef>, vals: Seq<SqlValue>, k: int) -> bool {
    &&& 0 <= k < cols.len()
    &&& k < vals.len()
    &&& breaks_column(cols[k], vals[k])
    &&& forall|j: int| 0 <= j < k ==> !breaks_column(#[trigger] cols[j], vals[j])
}

pub open spec fn first_breach(cols: Seq<ColumnDef>, vals: Seq<SqlValue>) -> Option<int> {
    if exists|k: int| is_first_breach(cols, vals, k) {
        Some(choose|k: int| is_first_breach(cols, vals, k))
    } else {
        None
    }
}

/// The message for a row with the wrong number of values.
pub open spec fn count_message(expected: nat, found: nat) -> Seq<char> {
    "Jumlah kolom tidak sesuai: mengharapkan "@ + nat_digits(expected) + ", ditemukan "@
        + nat_digits(found)
}

/// The message for a CHECK constraint of the table that a row fails.
pub open spec fn check_failed_message() -> Seq<char> {
    "Pelanggaran CHECK constraint pada tabel"@
}

/// The table's CHECK constraints from position `i` on, over a row with values `vals`: the
/// first whose expression fails gives its error, the first that is false gives the CHECK
/// error; NULL and true pass. `None` where an expression overflows.
pub open spec fn checks_from<
    F: Fn(FloatOperand, FloatOperand) -> ValueOrder,
    G: Fn(ArithOp, FloatOperand, FloatOperand) -> u64,
>(
    tcs: Seq<TableConstraint>,
    i: int,
    cols: Seq<ColumnDef>,
    vals: Seq<SqlValue>,
    f: F,
    g: G,
) -> Option<Result<(), Seq<char>>>
    decreases tcs.len() - i,
{
    if i < 0 || i >= tcs.len() {
        Some(Ok(()))
    } else {
        match tcs[i] {
            TableConstraint::Check(e) => match spec_eval(e, cols, vals, f, g) {
                None => None,
                Some(Err(m)) => Some(Err(m)),
                Some(Ok(v)) => if v == SqlValue::Bool(false) {
                    Some(Err(check_failed_message()))
                } else {
                    checks_from(tcs, i + 1, cols, vals, f, g)
                },
            },
            _ => checks_from(tcs, i + 1, cols, vals, f, g),
        }
    }
}

/// Whether the checks of a row get as far as the table's CHECK constraints: the row has
/// one value per column and every value keeps the rules of its column.
pub open spec fn reaches_checks(cols: Seq<ColumnDef>, vals: Seq<SqlValue>) -> bool {
    vals.len() == cols.len() && first_breach(cols, vals) is None
}

/// What `validate_row` answers for a row with values `vals`.
pub open spec fn row_verdict<
    F: Fn(FloatOperand, FloatOperand) -> ValueOrder,
    G: Fn(ArithOp, FloatOperand, FloatOperand) -> u64,
>(
    cols: Seq<ColumnDef>,
    tcs: Seq<TableConstraint>,
    vals: Seq<SqlValue>,
    f: F,
    g: G,
    r: Result<(), DomainError>,
) -> bool {
    if vals.len() != cols.len() {
        r matches Err(DomainError::EvaluationError(m)) && m@ == count_message(cols.len(), vals.len())
    } else {
        match first_breach(cols, vals) {
            Some(k) => if vals[k] is Null {
                r matches Err(DomainError::EvaluationError(m)) && m@ == "Kolom '"@ + cols[k].name@
                    + "' tidak boleh NULL"@
            } else {
                r matches Err(DomainError::TypeMismatch { expected, found }) && expected@
                    == spec_type_label(cols[k].sql_type)@ && found@ == spec_variant_name(vals[k])@
            },
            None => match checks_from(tcs, 0, cols, vals, f, g) {
                Some(Ok(())) => r is Ok,
                Some(Err(w)) => r matches Err(DomainError::EvaluationError(m)) && m@ == w,
                None => false,
            },
        }
    }
}

/// A column's name with letters lowercased, as duplicate names are found.
pub open spec fn lower_name(c: ColumnDef) -> Seq<char> {
    str_to_lowercase(c.name@)
}

/// Whether the column at `k` has the name of an earlier column, letter case aside.
pub open spec fn repeats_earlier(cols: Seq<ColumnDef>, k: int) -> bool {
    exists|j: int| 0 <= j < k && lower_name(#[trigger] cols[j]) == lower_name(cols[k])
}

pub open spec fn is_first_duplicate(cols: Seq<ColumnDef>, k: int) -> bool {
    &&& 0 <= k < cols.len()
    &&& repeats_earlier(cols, k)
    &&& forall|m: int| 0 <= m < k ==> !#[trigger] repeats_earlier(cols, m)
}

/// The first column whose name an earlier column already has, if any.
pub open spec fn first_duplicate(cols: Seq<ColumnDef>) -> Option<int> {
    if exists|k: int| is_first_duplicate(cols, k) {
        Some(choose|k: int| is_first_duplicate(cols, k))
    } else {
        None
    }
}

/// The message for a name that occurs twice in a schema.
pub open spec fn duplicate_message(name: Seq<char>) -> Seq<char> {
    "Duplikat nama kolom '"@ + name + "' dalam skema tabel"@
}

/// What the check of a list of columns answers: the first repeated name, or success.
pub open spec fn columns_verdict(cols: Seq<ColumnDef>, r: Result<(), DomainError>) -> bool {
    match first_duplicate(cols) {
        Some(k) => r matches Err(DomainError::EvaluationError(m)) && m@ == duplicate_message(
            cols[k].name@,
        ),
        None => r is Ok,
    }
}

fn contains_text(seen: &Vec<String>, s: &String) -> (r: bool)
    ensures
        r == exists|i: int| 0 <= i < seen@.len() && (#[trigger] seen@[i])@ == s@,
{
    let mut i: usize = 0;
    while i < seen.len()
        invariant
            i <= seen@.len(),
            forall|j: int| 0 <= j < i ==> (#[trigger] seen@[j])@ != s@,
        decreases seen@.len() - i,
    {
        if seen[i] == *s {
            return true;
        }
        i = i + 1;
    }
    false
}

/// Checks that no two columns share a name, letter case aside.
fn validate_schema_columns(columns: &[ColumnDef]) -> (r: Result<(), DomainError>)
    ensures
        columns_verdict(columns@, r),
{
    let ghost cols = columns@;
    let mut seen: Vec<String> = Vec::new();
    let mut i: usize = 0;
    while i < columns.len()
        invariant
            cols == columns@,
            i <= cols.len(),
            seen@.len() == i,
            forall|j: int| 0 <= j < i ==> (#[trigger] seen@[j])@ == lower_name(cols[j]),
            forall|m: int| 0 <= m < i ==> !#[trigger] repeats_earlier(cols, m),
        decreases cols.len() - i,
    {
        let lower = to_lowercase(columns[i].name.as_str());
        if contains_text(&seen, &lower) {
            proof {
                let j = choose|j: int| 0 <= j < seen@.len() && (#[trigger] seen@[j])@ == lower@;
                assert(lower_name(cols[j]) == lower_name(cols[i as int]));
                assert(repeats_earlier(cols, i as int));
                assert(is_first_duplicate(cols, i as int));
                let c = choose|k: int| is_first_duplicate(cols, k);
                if c < i {
                    assert(!repeats_earlier(cols, c));
                } else if c > i {
                    assert(!repeats_earlier(cols, i as int));
                }
            }
            let mut msg = String::from_str("Duplikat nama kolom '");
            msg.append(columns[i].name.as_str());
            msg.append("' dalam skema tabel");
            return Err(DomainError::EvaluationError(msg));
        }
        proof {
            assert forall|j: int| 0 <= j < i implies lower_name(#[trigger] cols[j]) != lower_name(
                cols[i as int],
            ) by {
                assert(seen@[j]@ == lower_name(cols[j]));
            }
        }
        seen.push(lower);
        i = i + 1;
    }
    Ok(())
}

/// Changing a column's name or type moves no column id: where every column keeps its id,
/// every id is found at the position where it was.
pub proof fn lemma_ids_survive_column_changes(
    before: Seq<ColumnDef>,
    after: Seq<ColumnDef>,
    id: ColumnId,
)
    requires
        before.len() == after.len(),
        forall|j: int| 0 <= j < before.len() ==> (#[trigger] after[j]).id == before[j].id,
    ensures
        position_of_id(after, id) == position_of_id(before, id),
{
    assert forall|i: int| is_first_with_id(after, id, i) <==> is_first_with_id(before, id, i) by {
        if 0 <= i < before.len() {
            assert(after[i].id == before[i].id);
            if forall|j: int| 0 <= j < i ==> (#[trigger] after[j]).id != id {
                assert forall|j: int| 0 <= j < i implies (#[trigger] before[j]).id != id by {
                    assert(after[j].id == before[j].id);
                }
            }
            if forall|j: int| 0 <= j < i ==> (#[trigger] before[j]).id != id {
                assert forall|j: int| 0 <= j < i implies (#[trigger] after[j]).id != id by {
                    assert(after[j].id == before[j].id);
                }
            }
        }
    }
    if exists|i: int| is_first_with_id(before, id, i) {
        let a = choose|i: int| is_first_with_id(after, id, i);
        let b = choose|i: int| is_first_with_id(before, id, i);
        assert(is_first_with_id(before, id, a));
        if a < b {
            assert(before[a].id == id);
        } else if a > b {
            assert(before[b].id == id);
        }
    }
}

proof fn lemma_first_breach_exists(cols: Seq<ColumnDef>, vals: Seq<SqlValue>, k: int)
    requires
        0 <= k < cols.len(),
        k < vals.len(),
        breaks_column(cols[k], vals[k]),
    ensures
        exists|m: int| is_first_breach(cols, vals, m),
    decreases k,
{
    if forall|j: int| 0 <= j < k ==> !breaks_column(#[trigger] cols[j], vals[j]) {
        assert(is_first_breach(cols, vals, k));
    } else {
        let j = choose|j: int| 0 <= j < k && breaks_column(#[trigger] cols[j], vals[j]);
        lemma_first_breach_exists(cols, vals, j);
    }
}

/// A row gets past the column rules exactly when it has one value per column, a NULL only
/// in a column that accepts NULL, and every other value of its column's type.
pub proof fn lemma_column_rules(cols: Seq<ColumnDef>, vals: Seq<SqlValue>)
    ensures
        reaches_checks(cols, vals) <==> (vals.len() == cols.len() && forall|i: int|
            0 <= i < cols.len() ==> (vals[i] is Null ==> (#[trigger] cols[i]).nullable) && (!(
            vals[i] is Null) ==> spec_matches_type(vals[i], cols[i].sql_type))),
{
    if vals.len() == cols.len() {
        if exists|i: int| 0 <= i < cols.len() && breaks_column(#[trigger] cols[i], vals[i]) {
            let i = choose|i: int| 0 <= i < cols.len() && breaks_column(#[trigger] cols[i], vals[i]);
            lemma_first_breach_exists(cols, vals, i);
        } else {
            assert forall|i: int| 0 <= i < cols.len() implies (vals[i] is Null ==> (
            #[trigger] cols[i]).nullable) && (!(vals[i] is Null) ==> spec_matches_type(
                vals[i],
                cols[i].sql_type,
            )) by {
                assert(!breaks_column(cols[i], vals[i]));
            }
        }
    }
}

/// Whether a constraint is a CHECK whose expression is FALSE on a row.
pub open spec fn check_is_false<
    F: Fn(FloatOperand, FloatOperand) -> ValueOrder,
    G: Fn(ArithOp, FloatOperand, FloatOperand) -> u64,
>(tc: TableConstraint, cols: Seq<ColumnDef>, vals: Seq<SqlValue>, f: F, g: G) -> bool {
    match tc {
        TableConstraint::Check(e) => spec_eval(e, cols, vals, f, g) == Some(
            Ok::<SqlValue, Seq<char>>(SqlValue::Bool(false)),
        ),
        _ => false,
    }
}

/// Whether a constraint that is a CHECK has an expression that evaluates on a row.
pub open spec fn check_evaluates<
    F: Fn(FloatOperand, FloatOperand) -> ValueOrder,
    G: Fn(ArithOp, FloatOperand, FloatOperand) -> u64,
>(tc: TableConstraint, cols: Seq<ColumnDef>, vals: Seq<SqlValue>, f: F, g: G) -> bool {
    match tc {
        TableConstraint::Check(e) => spec_eval(e, cols, vals, f, g) matches Some(Ok(_)),
        _ => true,
    }
}

proof fn lemma_checks_from_pass<
    F: Fn(FloatOperand, FloatOperand) -> ValueOrder,
    G: Fn(ArithOp, FloatOperand, FloatOperand) -> u64,
>(tcs: Seq<TableConstraint>, i: int, cols: Seq<ColumnDef>, vals: Seq<SqlValue>, f: F, g: G)
    requires
        0 <= i <= tcs.len(),
        forall|j: int| i <= j < tcs.len() ==> #[trigger] check_evaluates(tcs[j], cols, vals, f, g),
    ensures
        checks_from(tcs, i, cols, vals, f, g) == if exists|j: int|
            i <= j < tcs.len() && #[trigger] check_is_false(tcs[j], cols, vals, f, g) {
            Some(Err::<(), Seq<char>>(check_failed_message()))
        } else {
            Some(Ok::<(), Seq<char>>(()))
        },
    decreases tcs.len() - i,
{
    if i < tcs.len() {
        assert(check_evaluates(tcs[i], cols, vals, f, g));
        lemma_checks_from_pass(tcs, i + 1, cols, vals, f, g);
        if !check_is_false(tcs[i], cols, vals, f, g) {
            if exists|j: int| i <= j < tcs.len() && #[trigger] check_is_false(tcs[j], cols, vals, f, g) {
                let j = choose|j: int| i <= j < tcs.len() && #[trigger] check_is_false(tcs[j], cols, vals, f, g);
                assert(j != i);
            }
        }
    }
}

/// CHECK constraints of a table reject a row only by being FALSE on it: where every CHECK
/// expression evaluates on the row, the row passes exactly when none of them is FALSE, so
/// TRUE and NULL both let it through, and a FALSE one gives the CHECK error.
pub proof fn lemma_check_constraints_pass<
    F: Fn(FloatOperand, FloatOperand) -> ValueOrder,
    G: Fn(ArithOp, FloatOperand, FloatOperand) -> u64,
>(tcs: Seq<TableConstraint>, cols: Seq<ColumnDef>, vals: Seq<SqlValue>, f: F, g: G)
    requires
        forall|j: int| 0 <= j < tcs.len() ==> #[trigger] check_evaluates(tcs[j], cols, vals, f, g),
    ensures
        checks_from(tcs, 0, cols, vals, f, g) == if exists|j: int|
            0 <= j < tcs.len() && #[trigger] check_is_false(tcs[j], cols, vals, f, g) {
            Some(Err::<(), Seq<char>>("Pelanggaran CHECK constraint pada tabel"@))
        } else {
            Some(Ok::<(), Seq<char>>(()))
        },
{
    lemma_checks_from_pass(tcs, 0, cols, vals, f, g);
}

/// Rows whose values are the same get the same answer from the checks of a schema.
pub proof fn lemma_verdict_same_rows<
    F: Fn(FloatOperand, FloatOperand) -> ValueOrder,
    G: Fn(ArithOp, FloatOperand, FloatOperand) -> u64,
>(
    cols: Seq<ColumnDef>,
    tcs: Seq<TableConstraint>,
    vals: Seq<SqlValue>,
    vals2: Seq<SqlValue>,
    f: F,
    g: G,
    r: Result<(), DomainError>,
)
    requires
        vals.len() == vals2.len(),
        forall|i: int| 0 <= i < vals.len() ==> same_value(#[trigger] vals[i], vals2[i]),
    ensures
        first_breach(cols, vals) == first_breach(cols, vals2),
        reaches_checks(cols, vals) == reaches_checks(cols, vals2),
        checks_from(tcs, 0, cols, vals, f, g) == checks_from(tcs, 0, cols, vals2, f, g),
        row_verdict(cols, tcs, vals, f, g, r) == row_verdict(cols, tcs, vals2, f, g, r),
{
    assert forall|k: int| is_first_breach(cols, vals, k) <==> is_first_breach(cols, vals2, k) by {
        if 0 <= k < vals.len() {
            assert(same_value(vals[k], vals2[k]));
            if forall|j: int| 0 <= j < k ==> !breaks_column(#[trigger] cols[j], vals[j]) {
                assert forall|j: int| 0 <= j < k implies !breaks_column(#[trigger] cols[j], vals2[j]) by {
                    assert(same_value(vals[j], vals2[j]));
                }
            }
            if forall|j: int| 0 <= j < k ==> !breaks_column(#[trigger] cols[j], vals2[j]) {
                assert forall|j: int| 0 <= j < k implies !breaks_column(#[trigger] cols[j], vals[j]) by {
                    assert(same_value(vals[j], vals2[j]));
                }
            }
        }
    }
    if exists|k: int| is_first_breach(cols, vals, k) {
        let a = choose|k: int| is_first_breach(cols, vals, k);
        let b = choose|k: int| is_first_breach(cols, vals2, k);
        assert(is_first_breach(cols, vals, b));
        if a < b {
            assert(breaks_column(cols[a], vals[a]));
        } else if a > b {
            assert(breaks_column(cols[b], vals[b]));
        }
        assert(same_value(vals[a], vals2[a]));
    }
    lemma_checks_same_rows(tcs, 0, cols, vals, vals2, f, g);
}

proof fn lemma_checks_same_rows<
    F: Fn(FloatOperand, FloatOperand) -> ValueOrder,
    G: Fn(ArithOp, FloatOperand, FloatOperand) -> u64,
>(
    tcs: Seq<TableConstraint>,
    i: int,
    cols: Seq<ColumnDef>,
    vals: Seq<SqlValue>,
    vals2: Seq<SqlValue>,
    f: F,
    g: G,
)
    requires
        vals.len() == vals2.len(),
        forall|k: int| 0 <= k < vals.len() ==> same_value(#[trigger] vals[k], vals2[k]),
    ensures
        checks_from(tcs, i, cols, vals, f, g) == checks_from(tcs, i, cols, vals2, f, g),
    decreases tcs.len() - i,
{
    if 0 <= i < tcs.len() {
        lemma_checks_same_rows(tcs, i + 1, cols, vals, vals2, f, g);
        if let TableConstraint::Check(e) = tcs[i] {
            lemma_eval_same_rows(e, cols, vals, vals2, f, g);
        }
    }
}

/// Whether the schema takes a row with these values.
pub open spec fn takes_values<
    F: Fn(FloatOperand, FloatOperand) -> ValueOrder,
    G: Fn(ArithOp, FloatOperand, FloatOperand) -> u64,
>(schema: Schema, vals: Seq<SqlValue>, f: F, g: G) -> bool {
    &&& reaches_checks(schema.spec_columns(), vals)
    &&& checks_from(schema.spec_table_constraints(), 0, schema.spec_columns(), vals, f, g)
        == Some(Ok::<(), Seq<char>>(()))
}

/// A row passes `validate_row` exactly when the schema takes its values.
pub proof fn lemma_verdict_takes<
    F: Fn(FloatOperand, FloatOperand) -> ValueOrder,
    G: Fn(ArithOp, FloatOperand, FloatOperand) -> u64,
>(schema: Schema, vals: Seq<SqlValue>, f: F, g: G, r: Result<(), DomainError>)
    requires
        row_verdict(schema.spec_columns(), schema.spec_table_constraints(), vals, f, g, r),
    ensures
        r is Ok <==> takes_values(schema, vals, f, g),
{
    let cols = schema.spec_columns();
    if vals.len() == cols.len() && first_breach(cols, vals) is None {
        match checks_from(schema.spec_table_constraints(), 0, cols, vals, f, g) {
            Some(Ok(u)) => {
                assert(u == ());
            },
            _ => {},
        }
    }
}

/// The columns of a table and the constraints that span them.
#[derive(Debug, PartialEq)]
pub struct Schema {
    columns: Vec<ColumnDef>,
    table_constraints: Vec<TableConstraint>,
}

impl Schema {
    pub closed spec fn spec_columns(&self) -> Seq<ColumnDef> {
        self.columns@
    }

    pub closed spec fn spec_table_constraints(&self) -> Seq<TableConstraint> {
        self.table_constraints@
    }

    /// A schema with the given columns and no table constraints; columns that share a name,
    /// letter case aside, are refused.
    pub fn new(columns: Vec<ColumnDef>) -> (r: Result<Self, DomainError>)
        ensures
            match r {
                Ok(s) => first_duplicate(columns@) is None && s.spec_columns() == columns@
                    && s.spec_table_constraints() == Seq::<TableConstraint>::empty(),
                Err(e) => first_duplicate(columns@) matches Some(k) && e matches DomainError::EvaluationError(m)
                    && m@ == duplicate_message(columns@[k].name@),
            },
    {
        match validate_schema_columns(columns.as_slice()) {
            Ok(()) => Ok(Self { columns, table_constraints: Vec::new() }),
            Err(e) => Err(e),
        }
    }

    /// Adds columns at the end, all or none: where the columns together would repeat a
    /// name, the schema stays as it was.
    pub fn add_columns(&mut self, new_columns: Vec<ColumnDef>) -> (r: Result<(), DomainError>)
        ensures
            columns_verdict(old(self).spec_columns() + new_columns@, r),
            r is Ok ==> final(self).spec_columns() == old(self).spec_columns() + new_columns@,
            r is Err ==> final(self).spec_columns() == old(self).spec_columns(),
            final(self).spec_table_constraints() == old(self).spec_table_constraints(),
    {
        let old_len = self.columns.len();
        let mut staged: Vec<ColumnDef> = Vec::new();
        std::mem::swap(&mut staged, &mut self.columns);
        let mut added = new_columns;
        staged.append(&mut added);
        match validate_schema_columns(staged.as_slice()) {
            Ok(()) => {
                self.columns = staged;
                Ok(())
            },
            Err(e) => {
                staged.truncate(old_len);
                self.columns = staged;
                Err(e)
            },
        }
    }

    /// Gives the column with id `col_id` a new name.
    pub fn rename_column(&mut self, col_id: ColumnId, new_name: &str) -> (r: Result<(), DomainError>)
        ensures
            final(self).spec_table_constraints() == old(self).spec_table_constraints(),
            match position_of_id(old(self).spec_columns(), col_id) {
                Some(i) => {
                    &&& r is Ok
                    &&& final(self).spec_columns().len() == old(self).spec_columns().len()
                    &&& forall|j: int|
                        0 <= j < old(self).spec_columns().len() && j != i
                            ==> #[trigger] final(self).spec_columns()[j] == old(self).spec_columns()[j]
                    &&& final(self).spec_columns()[i].name@ == new_name@
                    &&& final(self).spec_columns()[i].id == old(self).spec_columns()[i].id
                    &&& final(self).spec_columns()[i].sql_type == old(self).spec_columns()[i].sql_type
                    &&& final(self).spec_columns()[i].nullable == old(self).spec_columns()[i].nullable
                },
                None => {
                    &&& r matches Err(DomainError::EvaluationError(m)) && m@ == "ColumnId '"@
                        + column_id_text(col_id) + "' tidak ditemukan di Schema"@
                    &&& final(self).spec_columns() == old(self).spec_columns()
                },
            },
    {
        match self.index_of_id(col_id) {
            Some(i) => {
                let mut col = self.columns.remove(i);
                col.name = new_name.to_owned();
                self.columns.insert(i, col);
                Ok(())
            },
            None => {
                let mut msg = String::from_str("ColumnId '");
                msg.append("ColumnId(");
                msg.append(u64_to_decimal(col_id.0 as u64).as_str());
                msg.append(")");
                msg.append("' tidak ditemukan di Schema");
                assert(msg@ =~= "ColumnId '"@ + column_id_text(col_id) + "' tidak ditemukan di Schema"@);
                Err(DomainError::EvaluationError(msg))
            },
        }
    }

    /// Gives the column with id `col_id` a new type.
    pub fn modify_column_type(&mut self, col_id: ColumnId, new_type: SqlType) -> (r: Result<
        (),
        DomainError,
    >)
        ensures
            final(self).spec_table_constraints() == old(self).spec_table_constraints(),
            match position_of_id(old(self).spec_columns(), col_id) {
                Some(i) => r is Ok && final(self).spec_columns() == old(self).spec_columns().update(
                    i,
                    ColumnDef { sql_type: new_type, ..old(self).spec_columns()[i] },
                ),
                None => {
                    &&& r matches Err(DomainError::EvaluationError(m)) && m@ == "ColumnId '"@
                        + column_id_text(col_id) + "' tidak ditemukan pada Schema"@
                    &&& final(self).spec_columns() == old(self).spec_columns()
                },
            },
    {
        match self.index_of_id(col_id) {
            Some(i) => {
                let mut col = self.columns.remove(i);
                col.sql_type = new_type;
                self.columns.insert(i, col);
                Ok(())
            },
            None => {
                let mut msg = String::from_str("ColumnId '");
                msg.append("ColumnId(");
                msg.append(u64_to_decimal(col_id.0 as u64).as_str());
                msg.append(")");
                msg.append("' tidak ditemukan pada Schema");
                assert(msg@ =~= "ColumnId '"@ + column_id_text(col_id) + "' tidak ditemukan pada Schema"@);
                Err(DomainError::EvaluationError(msg))
            },
        }
    }

    /// A schema with the given columns and constraints, taken as they are.
    pub fn with_table_constraints(
        columns: Vec<ColumnDef>,
        table_constraints: Vec<TableConstraint>,
    ) -> (r: Self)
        ensures
            r.spec_columns() == columns@,
            r.spec_table_constraints() == table_constraints@,
    {
        Self { columns, table_constraints }
    }

    pub fn columns(&self) -> (r: &[ColumnDef])
        ensures
            r@ == self.spec_columns(),
    {
        self.columns.as_slice()
    }

    pub fn table_constraints(&self) -> (r: &[TableConstraint])
        ensures
            r@ == self.spec_table_constraints(),
    {
        self.table_constraints.as_slice()
    }

    /// The position of the first column with id `id`.
    pub fn index_of_id(&self, id: ColumnId) -> (r: Option<usize>)
        ensures
            match r {
                Some(i) => position_of_id(self.spec_columns(), id) == Some(i as int),
                None => position_of_id(self.spec_columns(), id) is None,
            },
    {
        let mut i: usize = 0;
        while i < self.columns.len()
            invariant
                i <= self.columns@.len(),
                forall|j: int| 0 <= j < i ==> (#[trigger] self.columns@[j]).id != id,
            decreases self.columns@.len() - i,
        {
            if self.columns[i].id == id {
                proof {
                    let cols = self.columns@;
                    assert(is_first_with_id(cols, id, i as int));
                    let c = choose|k: int| is_first_with_id(cols, id, k);
                    if c < i {
                        assert(cols[c].id != id);
                    } else if c > i {
                        assert(cols[i as int].id != id);
                    }
                }
                return Some(i);
            }
            i = i + 1;
        }
        None
    }

    /// The first column with id `id`.
    pub fn get_column_by_id(&self, id: ColumnId) -> (r: Option<&ColumnDef>)
        ensures
            match r {
                Some(c) => position_of_id(self.spec_columns(), id) matches Some(i) && *c
                    == self.spec_columns()[i],
                None => position_of_id(self.spec_columns(), id) is None,
            },
    {
        match self.index_of_id(id) {
            Some(i) => Some(&self.columns[i]),
            None => None,
        }
    }

    /// Checks a row against the schema: one value per column, NULL only where a column
    /// accepts it, each value of its column's type, and no CHECK constraint of the table
    /// false. Floats in the CHECK expressions are ordered by `float_order` and combined by
    /// `float_arith`.
    pub fn validate_row<
        F: Fn(FloatOperand, FloatOperand) -> ValueOrder,
        G: Fn(ArithOp, FloatOperand, FloatOperand) -> u64,
    >(&self, values: &[SqlValue], float_order: &F, float_arith: &G) -> (r: Result<
        (),
        DomainError,
    >)
        requires
            orders_floats(*float_order),
            combines_floats(*float_arith),
            reaches_checks(self.spec_columns(), values@) ==> checks_from(
                self.spec_table_constraints(),
                0,
                self.spec_columns(),
                values@,
                *float_order,
                *float_arith,
            ) is Some,
        ensures
            row_verdict(
                self.spec_columns(),
                self.spec_table_constraints(),
                values@,
                *float_order,
                *float_arith,
                r,
            ),
    {
        let ghost cols = self.columns@;
        let ghost vals = values@;
        if values.len() != self.columns.len() {
            let mut msg = String::from_str("Jumlah kolom tidak sesuai: mengharapkan ");
            msg.append(u64_to_decimal(self.columns.len() as u64).as_str());
            msg.append(", ditemukan ");
            msg.append(u64_to_decimal(values.len() as u64).as_str());
            return Err(DomainError::EvaluationError(msg));
        }
        let mut copies: Vec<SqlValue> = Vec::new();
        let mut i: usize = 0;
        while i < values.len()
            invariant
                i <= values@.len(),
                values@.len() == cols.len(),
                cols == self.columns@,
                vals == values@,
                copies@.len() == i,
                forall|j: int| 0 <= j < i ==> same_value(#[trigger] vals[j], copies@[j]),
                forall|j: int| 0 <= j < i ==> !breaks_column(#[trigger] cols[j], vals[j]),
            decreases values@.len() - i,
        {
            let col = &self.columns[i];
            let val = &values[i];
            if val.is_null() {
                if !col.is_nullable() {
                    proof {
                        assert(is_first_breach(cols, vals, i as int));
                        let c = choose|k: int| is_first_breach(cols, vals, k);
                        if c < i {
                            assert(!breaks_column(cols[c], vals[c]));
                        } else if c > i {
                            assert(breaks_column(cols[i as int], vals[i as int]));
                        }
                    }
                    let mut msg = String::from_str("Kolom '");
                    msg.append(col.name.as_str());
                    msg.append("' tidak boleh NULL");
                    return Err(DomainError::EvaluationError(msg));
                }
            } else if !val.matches_type(&col.sql_type) {
                proof {
                    assert(is_first_breach(cols, vals, i as int));
                    let c = choose|k: int| is_first_breach(cols, vals, k);
                    if c < i {
                        assert(!breaks_column(cols[c], vals[c]));
                    } else if c > i {
                        assert(breaks_column(cols[i as int], vals[i as int]));
                    }
                }
                return Err(
                    DomainError::TypeMismatch {
                        expected: String::from_str(type_label(&col.sql_type)),
                        found: String::from_str(val.variant_name()),
                    },
                );
            }
            copies.push(val.copy_value());
            i = i + 1;
        }
        assert(first_breach(cols, vals) is None);
        let temp_row = Row::new(copies);
        let ghost rvals = temp_row.spec_values();
        let tcs = &self.table_constraints;
        let mut t: usize = 0;
        while t < tcs.len()
            invariant
                t <= tcs@.len(),
                tcs@ == self.table_constraints@,
                vals.len() == cols.len(),
                first_breach(cols, vals) is None,
                cols == self.columns@,
                vals == values@,
                rvals == temp_row.spec_values(),
                rvals.len() == vals.len(),
                forall|j: int| 0 <= j < vals.len() ==> same_value(#[trigger] vals[j], rvals[j]),
                orders_floats(*float_order),
                combines_floats(*float_arith),
                checks_from(tcs@, t as int, cols, vals, *float_order, *float_arith)
                    == checks_from(tcs@, 0, cols, vals, *float_order, *float_arith),
                checks_from(tcs@, 0, cols, vals, *float_order, *float_arith) is Some,
            decreases tcs@.len() - t,
        {
            if let TableConstraint::Check(expr) = &tcs[t] {
                proof {
                    lemma_eval_same_rows(*expr, cols, vals, rvals, *float_order, *float_arith);
                }
                let res = match eval_expr(expr, self, &temp_row, float_order, float_arith) {
                    Ok(v) => v,
                    Err(e) => return Err(e),
                };
                let is_false = match res {
                    SqlValue::Bool(b) => !b,
                    _ => false,
                };
                if is_false {
                    return Err(DomainError::EvaluationError(
                        String::from_str("Pelanggaran CHECK constraint pada tabel"),
                    ));
                }
            }
            t = t + 1;
        }
        Ok(())
    }

    fn position_named(&self, name: &str) -> (r: Option<usize>)
        ensures
            match r {
                Some(i) => is_first_named(self.spec_columns(), name@, i as int),
                None => !has_named(self.spec_columns(), name@),
            },
    {
        let mut i: usize = 0;
        while i < self.columns.len()
            invariant
                i <= self.columns@.len(),
                forall|j: int| 0 <= j < i ==> !eq_ignore_ascii_case(#[trigger] self.columns@[j].name@, name@),
            decreases self.columns@.len() - i,
        {
            if str_eq_ignore_ascii_case(self.columns[i].name.as_str(), name) {
                return Some(i);
            }
            i = i + 1;
        }
        None
    }

    /// The position of a column, found by name regardless of ASCII case; a name of the form
    /// `table.column` that matches no column is looked up by its part after the first '.'.
    pub fn index_of(&self, col_name: &str) -> (r: Option<usize>)
        ensures
            has_named(self.spec_columns(), col_name@) ==> (r matches Some(i) && is_first_named(
                self.spec_columns(),
                col_name@,
                i as int,
            )),
            !has_named(self.spec_columns(), col_name@) ==> match after_first_dot(col_name@) {
                Some(rest) => match r {
                    Some(i) => is_first_named(self.spec_columns(), rest, i as int),
                    None => !has_named(self.spec_columns(), rest),
                },
                None => r is None,
            },
    {
        if let Some(idx) = self.position_named(col_name) {
            return Some(idx);
        }
        if let Some((_table, col)) = split_once_dot(col_name) {
            proof {
                let s = col_name@;
                let k = _table@.len() as int;
                assert(s[k] == '.');
                assert(s.contains('.'));
                let i = choose|i: int| 0 <= i < s.len() && s[i] == '.' && forall|j: int| 0 <= j < i ==> s[j] != '.';
                assert(i == k) by {
                    if i < k {
                        assert(_table@[i] == s[i]);
                    } else if i > k {
                        assert(s[k] != '.');
                    }
                }
                assert(s.subrange(k + 1, s.len() as int) =~= col@);
            }
            return self.position_named(col);
        }
        None
    }
}

impl Default for Schema {
    fn default() -> (r: Self)
        ensures
            r.spec_columns() == Seq::<ColumnDef>::empty(),
            r.spec_table_constraints() == Seq::<TableConstraint>::empty(),
    {
        Self { columns: Vec::new(), table_constraints: Vec::new() }
    }
}

} // verus!
