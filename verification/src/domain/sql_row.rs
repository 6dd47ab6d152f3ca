use vstd::prelude::*;

use crate::domain::id::RowId;
use crate::domain::schema::sql_schema::{resolves_to, Schema};
use crate::domain::types::sql_value::{same_value, SqlValue};
use crate::error::DomainError;
use crate::text::{nat_digits, u64_to_decimal};

verus! {

/// One row of a table: a permanent row id and one value per column.
#[derive(Debug, Clone, PartialEq)]
pub struct Row {
    id: RowId,
    values: Vec<SqlValue>,
}

impl Row {
    pub closed spec fn spec_id(&self) -> RowId {
        self.id
    }

    pub closed spec fn spec_values(&self) -> Seq<SqlValue> {
        self.values@
    }

    /// A row with id 0.
    pub fn new(values: Vec<SqlValue>) -> (r: Self)
        ensures
            r.spec_id() == RowId(0),
            r.spec_values() == values@,
    {
        Self { id: RowId::from(0u64), values }
    }

    /// A row with the given permanent id.
    pub fn with_id(id: RowId, values: Vec<SqlValue>) -> (r: Self)
        ensures
            r.spec_id() == id,
            r.spec_values() == values@,
    {
        Self { id, values }
    }

    pub fn id(&self) -> (r: RowId)
        ensures
            r == self.spec_id(),
    {
        self.id
    }

    pub fn set_id(&mut self, id: RowId)
        ensures
            final(self).spec_id() == id,
            final(self).spec_values() == old(self).spec_values(),
    {
        self.id = id;
    }

    pub fn values(&self) -> (r: &[SqlValue])
        ensures
            r@ == self.spec_values(),
    {
        self.values.as_slice()
    }

    /// Write access to the values; the id stays.
    pub fn values_mut(&mut self) -> (r: &mut Vec<SqlValue>)
        ensures
            r@ == old(self).spec_values(),
            final(self).spec_values() == final(r)@,
            final(self).spec_id() == old(self).spec_id(),
    {
        &mut self.values
    }

    /// The value at a column position.
    pub fn get_by_index(&self, index: usize) -> (r: Option<&SqlValue>)
        ensures
            match r {
                Some(v) => index < self.spec_values().len() && *v == self.spec_values()[index as int],
                None => index >= self.spec_values().len(),
            },
    {
        if index < self.values.len() {
            Some(&self.values[index])
        } else {
            None
        }
    }

    /// The value of a column found by name with the schema's `index_of`. A name the schema
    /// does not know, and a position beyond the row, are errors.
    pub fn get_by_name<'a>(&'a self, schema: &Schema, col_name: &str) -> (r: Result<
        &'a SqlValue,
        DomainError,
    >)
        ensures
            match r {
                Ok(v) => exists|i: int|
                    resolves_to(schema.spec_columns(), col_name@, i) && i < self.spec_values().len()
                        && *v == #[trigger] self.spec_values()[i],
                Err(e) => {
                    ||| (e matches DomainError::ColumnNotFound(m) && m@ == "Kolom '"@ + col_name@
                        + "' tidak ditemukan pada skema"@ && forall|i: int|
                        !#[trigger] resolves_to(schema.spec_columns(), col_name@, i))
                    ||| (e matches DomainError::EvaluationError(m) && exists|i: int|
                        #[trigger] resolves_to(schema.spec_columns(), col_name@, i) && i
                            >= self.spec_values().len() && m@ == "Data pada indeks "@ + nat_digits(i as nat)
                            + " tidak ditemukan"@)
                },
            },
    {
        let idx = match schema.index_of(col_name) {
            Some(i) => i,
            None => {
                let mut msg = String::from_str("Kolom '");
                msg.append(col_name);
                msg.append("' tidak ditemukan pada skema");
                return Err(DomainError::ColumnNotFound(msg));
            },
        };
        assert(resolves_to(schema.spec_columns(), col_name@, idx as int));
        match self.get_by_index(idx) {
            Some(v) => Ok(v),
            None => {
                let mut msg = String::from_str("Data pada indeks ");
                msg.append(u64_to_decimal(idx as u64).as_str());
                msg.append(" tidak ditemukan");
                assert(msg@ == "Data pada indeks "@ + nat_digits(idx as nat) + " tidak ditemukan"@);
                Err(DomainError::EvaluationError(msg))
            },
        }
    }

    /// A copy of the row: the same id and the same values.
    pub fn copy_row(&self) -> (r: Self)
        ensures
            r.spec_id() == self.spec_id(),
            r.spec_values().len() == self.spec_values().len(),
            forall|j: int|
                0 <= j < r.spec_values().len() ==> same_value(
                    #[trigger] r.spec_values()[j],
                    self.spec_values()[j],
                ),
    {
        let mut values: Vec<SqlValue> = Vec::new();
        let mut i: usize = 0;
        while i < self.values.len()
            invariant
                i <= self.values@.len(),
                values@.len() == i,
                forall|j: int| 0 <= j < i ==> same_value(#[trigger] values@[j], self.values@[j]),
            decreases self.values@.len() - i,
        {
            values.push(self.values[i].copy_value());
            i = i + 1;
        }
        Self { id: self.id, values }
    }

    pub fn into_values(self) -> (r: Vec<SqlValue>)
        ensures
            r@ == self.spec_values(),
    {
        self.values
    }

    pub fn into_parts(self) -> (r: (RowId, Vec<SqlValue>))
        ensures
            r.0 == self.spec_id(),
            r.1@ == self.spec_values(),
    {
        (self.id, self.values)
    }

    /// Takes out the value at a column position, as when a column is dropped.
    pub fn remove(&mut self, index: usize) -> (r: Option<SqlValue>)
        ensures
            final(self).spec_id() == old(self).spec_id(),
            match r {
                Some(v) => index < old(self).spec_values().len() && v == old(self).spec_values()[index as int]
                    && final(self).spec_values() == old(self).spec_values().remove(index as int),
                None => index >= old(self).spec_values().len() && final(self).spec_values()
                    == old(self).spec_values(),
            },
    {
        if index < self.values.len() {
            Some(self.values.remove(index))
        } else {
            None
        }
    }

    /// Appends a value, as when a column is added.
    pub fn push(&mut self, value: SqlValue)
        ensures
            final(self).spec_id() == old(self).spec_id(),
            final(self).spec_values() == old(self).spec_values().push(value),
    {
        self.values.push(value);
    }
}

impl From<Vec<SqlValue>> for Row {
    fn from(values: Vec<SqlValue>) -> (r: Self) {
        Row { id: RowId(0), values }
    }
}

impl From<(RowId, Vec<SqlValue>)> for Row {
    fn from(parts: (RowId, Vec<SqlValue>)) -> (r: Self) {
        let (id, values) = parts;
        Row { id, values }
    }
}

impl std::ops::Index<usize> for Row {
    type Output = SqlValue;

    /// The value at a column position; the position must lie inside the row.
    fn index(&self, index: usize) -> (r: &SqlValue)
        ensures
            *r == self.spec_values()[index as int],
    {
        &self.values[index]
    }
}

impl vstd::std_specs::core::IndexSpecImpl<usize> for Row {
    open spec fn index_req(&self, index: &usize) -> bool {
        *index < self.spec_values().len()
    }
}

impl vstd::std_specs::convert::FromSpecImpl<Vec<SqlValue>> for Row {
    open spec fn obeys_from_spec() -> bool {
        true
    }

    closed spec fn from_spec(values: Vec<SqlValue>) -> Self {
        Row { id: RowId(0), values }
    }
}

impl vstd::std_specs::convert::FromSpecImpl<(RowId, Vec<SqlValue>)> for Row {
    open spec fn obeys_from_spec() -> bool {
        true
    }

    closed spec fn from_spec(parts: (RowId, Vec<SqlValue>)) -> Self {
        Row { id: parts.0, values: parts.1 }
    }
}

} // verus!
