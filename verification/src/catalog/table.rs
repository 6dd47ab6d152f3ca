use vstd::prelude::*;

use crate::domain::id::{IdGenerator, RowId, TableId};
use crate::domain::schema::sql_schema::Schema;
use crate::domain::sql_row::Row;

verus! {

/// A table of the catalog: its id, its name, its schema, its rows in order, and the
/// sequence its row ids are drawn from.
#[derive(Debug)]
pub struct Table {
    id: TableId,
    name: String,
    schema: Schema,
    rows: Vec<Row>,
    row_id_gen: IdGenerator,
}

impl Table {
    pub closed spec fn spec_id(&self) -> TableId {
        self.id
    }

    pub closed spec fn spec_name(&self) -> Seq<char> {
        self.name@
    }

    pub closed spec fn spec_schema(&self) -> Schema {
        self.schema
    }

    pub closed spec fn spec_rows(&self) -> Seq<Row> {
        self.rows@
    }

    /// The row id that the table hands out next.
    pub closed spec fn spec_next_row(&self) -> u64 {
        self.row_id_gen@
    }

    /// Every row has one value per column of the schema.
    pub open spec fn wf(&self) -> bool {
        forall|i: int|
            0 <= i < self.spec_rows().len() ==> (#[trigger] self.spec_rows()[i]).spec_values().len()
                == self.spec_schema().spec_columns().len()
    }

    /// The row ids of the table increase from row to row and stay below the id handed out
    /// next, so no two rows share an id and no new row takes the id of an old one.
    pub open spec fn ids_fresh(&self) -> bool {
        &&& forall|i: int, j: int|
            0 <= i < j < self.spec_rows().len() ==> (#[trigger] self.spec_rows()[i]).spec_id().0
                < (#[trigger] self.spec_rows()[j]).spec_id().0
        &&& forall|i: int|
            0 <= i < self.spec_rows().len() ==> (#[trigger] self.spec_rows()[i]).spec_id().0
                < self.spec_next_row()
    }

    /// An empty table whose row ids start at 1.
    pub fn new(id: TableId, name: &str, schema: Schema) -> (r: Self)
        ensures
            r.spec_id() == id,
            r.spec_name() == name@,
            r.spec_schema() == schema,
            r.spec_rows() == Seq::<Row>::empty(),
            r.spec_next_row() == 1,
            r.wf(),
            r.ids_fresh(),
    {
        Self { id, name: name.to_owned(), schema, rows: Vec::new(), row_id_gen: IdGenerator::new(1) }
    }

    pub fn id(&self) -> (r: TableId)
        ensures
            r == self.spec_id(),
    {
        self.id
    }

    pub fn name(&self) -> (r: &str)
        ensures
            r@ == self.spec_name(),
    {
        self.name.as_str()
    }

    pub fn set_name(&mut self, name: &str)
        ensures
            final(self).spec_name() == name@,
            final(self).spec_id() == old(self).spec_id(),
            final(self).spec_schema() == old(self).spec_schema(),
            final(self).spec_rows() == old(self).spec_rows(),
            final(self).spec_next_row() == old(self).spec_next_row(),
    {
        self.name = name.to_owned();
    }

    pub fn schema(&self) -> (r: &Schema)
        ensures
            *r == self.spec_schema(),
    {
        &self.schema
    }

    pub fn rows(&self) -> (r: &[Row])
        ensures
            r@ == self.spec_rows(),
    {
        self.rows.as_slice()
    }

    /// Draws the next row id.
    pub(crate) fn next_row_id(&mut self) -> (r: RowId)
        ensures
            r == RowId(old(self).spec_next_row()),
            final(self).spec_next_row() == crate::domain::id::spec_successor(old(self).spec_next_row()),
            final(self).spec_id() == old(self).spec_id(),
            final(self).spec_name() == old(self).spec_name(),
            final(self).spec_schema() == old(self).spec_schema(),
            final(self).spec_rows() == old(self).spec_rows(),
    {
        self.row_id_gen.next_row_id()
    }

    /// Adds rows at the end, in order.
    pub(crate) fn append_rows(&mut self, rows: Vec<Row>)
        ensures
            final(self).spec_rows() == old(self).spec_rows() + rows@,
            final(self).spec_id() == old(self).spec_id(),
            final(self).spec_name() == old(self).spec_name(),
            final(self).spec_schema() == old(self).spec_schema(),
            final(self).spec_next_row() == old(self).spec_next_row(),
    {
        let mut rows = rows;
        self.rows.append(&mut rows);
    }

    /// Puts rows in place of the table's rows.
    pub(crate) fn put_rows(&mut self, rows: Vec<Row>)
        ensures
            final(self).spec_rows() == rows@,
            final(self).spec_id() == old(self).spec_id(),
            final(self).spec_name() == old(self).spec_name(),
            final(self).spec_schema() == old(self).spec_schema(),
            final(self).spec_next_row() == old(self).spec_next_row(),
    {
        self.rows = rows;
    }

    /// Takes the rows out, leaving the table without rows.
    pub(crate) fn take_rows(&mut self) -> (r: Vec<Row>)
        ensures
            r@ == old(self).spec_rows(),
            final(self).spec_rows() == Seq::<Row>::empty(),
            final(self).spec_id() == old(self).spec_id(),
            final(self).spec_name() == old(self).spec_name(),
            final(self).spec_schema() == old(self).spec_schema(),
            final(self).spec_next_row() == old(self).spec_next_row(),
    {
        let mut taken: Vec<Row> = Vec::new();
        std::mem::swap(&mut taken, &mut self.rows);
        taken
    }
}

} // verus!
