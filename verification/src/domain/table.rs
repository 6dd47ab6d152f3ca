use vstd::prelude::*;

use crate::domain::expr::evaluator::{combines_floats, orders_floats};
use crate::domain::schema::sql_schema::{
    checks_from, lemma_verdict_takes, reaches_checks, row_verdict, takes_values, Schema,
};
use crate::domain::sql_row::Row;
use crate::domain::types::arithmetic::ArithOp;
use crate::domain::types::ordering::{FloatOperand, ValueOrder};
use crate::domain::types::sql_value::same_value;
use crate::error::DomainError;

verus! {

/// Whether a schema takes a row: one value per column, each keeping the rules of its
/// column, and no CHECK constraint of the table false.
pub open spec fn accepts<
    F: Fn(FloatOperand, FloatOperand) -> ValueOrder,
    G: Fn(ArithOp, FloatOperand, FloatOperand) -> u64,
>(schema: Schema, row: Row, f: F, g: G) -> bool {
    takes_values(schema, row.spec_values(), f, g)
}

/// Whether checking the row against the schema runs to an answer: no integer operation in
/// a CHECK constraint overflows.
pub open spec fn check_completes<
    F: Fn(FloatOperand, FloatOperand) -> ValueOrder,
    G: Fn(ArithOp, FloatOperand, FloatOperand) -> u64,
>(schema: Schema, row: Row, f: F, g: G) -> bool {
    reaches_checks(schema.spec_columns(), row.spec_values()) ==> checks_from(
        schema.spec_table_constraints(),
        0,
        schema.spec_columns(),
        row.spec_values(),
        f,
        g,
    ) is Some
}

/// A table held in memory: its name, its schema and its rows in the order they came.
#[derive(Debug)]
pub struct Table {
    name: String,
    schema: Schema,
    rows: Vec<Row>,
}

impl Table {
    pub closed spec fn spec_name(&self) -> Seq<char> {
        self.name@
    }

    pub closed spec fn spec_schema(&self) -> Schema {
        self.schema
    }

    pub closed spec fn spec_rows(&self) -> Seq<Row> {
        self.rows@
    }

    /// Every row has one value per column, each keeping the rules of its column.
    pub open spec fn wf(&self) -> bool {
        forall|i: int|
            0 <= i < self.spec_rows().len() ==> reaches_checks(
                self.spec_schema().spec_columns(),
                (#[trigger] self.spec_rows()[i]).spec_values(),
            )
    }

    /// An empty table.
    pub fn new(name: &str, schema: Schema) -> (r: Self)
        ensures
            r.spec_name() == name@,
            r.spec_schema() == schema,
            r.spec_rows() == Seq::<Row>::empty(),
            r.wf(),
    {
        Self { name: name.to_owned(), schema, rows: Vec::new() }
    }

    pub fn name(&self) -> (r: &str)
        ensures
            r@ == self.spec_name(),
    {
        self.name.as_str()
    }

    pub fn schema(&self) -> (r: &Schema)
        ensures
            *r == self.spec_schema(),
    {
        &self.schema
    }

    /// Adds a row after checking it against the schema; a row that the schema refuses
    /// leaves the table as it was. Floats in CHECK constraints are ordered by
    /// `float_order` and combined by `float_arith`.
    pub fn insert<
        F: Fn(FloatOperand, FloatOperand) -> ValueOrder,
        G: Fn(ArithOp, FloatOperand, FloatOperand) -> u64,
    >(&mut self, row: Row, float_order: &F, float_arith: &G) -> (r: Result<(), DomainError>)
        requires
            old(self).wf(),
            orders_floats(*float_order),
            combines_floats(*float_arith),
            check_completes(old(self).spec_schema(), row, *float_order, *float_arith),
        ensures
            final(self).wf(),
            final(self).spec_name() == old(self).spec_name(),
            final(self).spec_schema() == old(self).spec_schema(),
            row_verdict(
                old(self).spec_schema().spec_columns(),
                old(self).spec_schema().spec_table_constraints(),
                row.spec_values(),
                *float_order,
                *float_arith,
                r,
            ),
            r is Ok <==> accepts(old(self).spec_schema(), row, *float_order, *float_arith),
            r is Ok ==> final(self).spec_rows() == old(self).spec_rows().push(row),
            r is Err ==> final(self).spec_rows() == old(self).spec_rows(),
    {
        let verdict = self.schema.validate_row(row.values(), float_order, float_arith);
        proof {
            lemma_verdict_takes(self.schema, row.spec_values(), *float_order, *float_arith, verdict);
        }
        match verdict {
            Ok(()) => {
                self.rows.push(row);
                assert(forall|i: int|
                    0 <= i < old(self).spec_rows().len() ==> self.spec_rows()[i] == old(
                        self,
                    ).spec_rows()[i]);
                Ok(())
            },
            Err(e) => Err(e),
        }
    }

    /// Adds several rows at once: every row is checked first, in order, and the first that
    /// the schema refuses is the answer, with no row added; otherwise all are added, in
    /// order, and their number comes back.
    pub fn insert_many<
        F: Fn(FloatOperand, FloatOperand) -> ValueOrder,
        G: Fn(ArithOp, FloatOperand, FloatOperand) -> u64,
    >(&mut self, new_rows: Vec<Row>, float_order: &F, float_arith: &G) -> (r: Result<
        usize,
        DomainError,
    >)
        requires
            old(self).wf(),
            orders_floats(*float_order),
            combines_floats(*float_arith),
            forall|i: int|
                0 <= i < new_rows@.len() && (forall|j: int|
                    0 <= j < i ==> accepts(
                        old(self).spec_schema(),
                        #[trigger] new_rows@[j],
                        *float_order,
                        *float_arith,
                    )) ==> check_completes(
                    old(self).spec_schema(),
                    #[trigger] new_rows@[i],
                    *float_order,
                    *float_arith,
                ),
        ensures
            final(self).wf(),
            final(self).spec_name() == old(self).spec_name(),
            final(self).spec_schema() == old(self).spec_schema(),
            match r {
                Ok(n) => {
                    &&& n == new_rows@.len()
                    &&& forall|i: int|
                        0 <= i < new_rows@.len() ==> accepts(
                            old(self).spec_schema(),
                            #[trigger] new_rows@[i],
                            *float_order,
                            *float_arith,
                        )
                    &&& final(self).spec_rows() == old(self).spec_rows() + new_rows@
                },
                Err(e) => {
                    &&& final(self).spec_rows() == old(self).spec_rows()
                    &&& exists|k: int|
                        0 <= k < new_rows@.len() && !accepts(
                            old(self).spec_schema(),
                            #[trigger] new_rows@[k],
                            *float_order,
                            *float_arith,
                        ) && (forall|j: int|
                            0 <= j < k ==> accepts(
                                old(self).spec_schema(),
                                #[trigger] new_rows@[j],
                                *float_order,
                                *float_arith,
                            )) && row_verdict(
                            old(self).spec_schema().spec_columns(),
                            old(self).spec_schema().spec_table_constraints(),
                            new_rows@[k].spec_values(),
                            *float_order,
                            *float_arith,
                            Err(e),
                        )
                },
            },
    {
        let ghost nr = new_rows@;
        let mut i: usize = 0;
        while i < new_rows.len()
            invariant
                i <= new_rows@.len(),
                *self == *old(self),
                self.wf(),
                self.spec_rows() == old(self).spec_rows(),
                self.spec_schema() == old(self).spec_schema(),
                self.spec_name() == old(self).spec_name(),
                nr == new_rows@,
                orders_floats(*float_order),
                combines_floats(*float_arith),
                forall|j: int|
                    0 <= j < i ==> accepts(
                        self.spec_schema(),
                        #[trigger] new_rows@[j],
                        *float_order,
                        *float_arith,
                    ),
                forall|i: int|
                    0 <= i < new_rows@.len() && (forall|j: int|
                        0 <= j < i ==> accepts(
                            self.spec_schema(),
                            #[trigger] new_rows@[j],
                            *float_order,
                            *float_arith,
                        )) ==> check_completes(
                        self.spec_schema(),
                        #[trigger] new_rows@[i],
                        *float_order,
                        *float_arith,
                    ),
            decreases new_rows@.len() - i,
        {
            let verdict = self.schema.validate_row(new_rows[i].values(), float_order, float_arith);
            proof {
                lemma_verdict_takes(self.schema, new_rows@[i as int].spec_values(), *float_order, *float_arith, verdict);
            }
            match verdict {
                Ok(()) => {},
                Err(e) => {
                    return Err(e);
                },
            }
            i = i + 1;
        }
        let count = new_rows.len();
        let mut added = new_rows;
        let ghost before = self.rows@;
        assert(before == old(self).spec_rows());
        self.rows.append(&mut added);
        proof {
            assert forall|k: int| 0 <= k < self.rows@.len() implies reaches_checks(
                self.spec_schema().spec_columns(),
                (#[trigger] self.rows@[k]).spec_values(),
            ) by {
                if k >= before.len() {
                    assert(self.rows@[k] == nr[k - before.len()]);
                    assert(accepts(self.spec_schema(), nr[k - before.len()], *float_order, *float_arith));
                } else {
                    assert(self.rows@[k] == before[k]);
                    assert(before[k] == old(self).spec_rows()[k]);
                }
            }
        }
        Ok(count)
    }

    /// A copy of the rows, in order.
    pub fn scan(&self) -> (r: Result<Vec<Row>, DomainError>)
        ensures
            r matches Ok(rows) && rows@.len() == self.spec_rows().len() && forall|i: int|
                0 <= i < rows@.len() ==> (#[trigger] rows@[i]).spec_id() == self.spec_rows()[i].spec_id()
                    && rows@[i].spec_values().len() == self.spec_rows()[i].spec_values().len()
                    && forall|j: int|
                    0 <= j < rows@[i].spec_values().len() ==> same_value(
                        #[trigger] rows@[i].spec_values()[j],
                        self.spec_rows()[i].spec_values()[j],
                    ),
    {
        let mut out: Vec<Row> = Vec::new();
        let mut i: usize = 0;
        while i < self.rows.len()
            invariant
                i <= self.rows@.len(),
                out@.len() == i,
                forall|k: int|
                    0 <= k < i ==> (#[trigger] out@[k]).spec_id() == self.rows@[k].spec_id()
                        && out@[k].spec_values().len() == self.rows@[k].spec_values().len()
                        && forall|j: int|
                        0 <= j < out@[k].spec_values().len() ==> same_value(
                            #[trigger] out@[k].spec_values()[j],
                            self.rows@[k].spec_values()[j],
                        ),
            decreases self.rows@.len() - i,
        {
            out.push(self.rows[i].copy_row());
            i = i + 1;
        }
        Ok(out)
    }
}

} // verus!
