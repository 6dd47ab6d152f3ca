use vstd::prelude::*;

use crate::domain::id::ColumnId;
use crate::domain::types::sql_type::SqlType;

verus! {

/// A column of a table: its permanent id, its name, its type and whether it accepts NULL.
#[derive(Debug, Clone, PartialEq, Eq)]
pub struct ColumnDef {
    pub id: ColumnId,
    pub name: String,
    pub sql_type: SqlType,
    pub nullable: bool,
}

impl ColumnDef {
    /// A column with id 0; the catalog gives it its id.
    pub fn new(name: &str, sql_type: SqlType, nullable: bool) -> (r: Self)
        ensures
            r.id == ColumnId(0),
            r.name@ == name@,
            r.sql_type == sql_type,
            r.nullable == nullable,
    {
        Self { id: ColumnId(0), name: name.to_owned(), sql_type, nullable }
    }

    /// A column with the given permanent id.
    pub fn with_id(id: ColumnId, name: &str, sql_type: SqlType, nullable: bool) -> (r: Self)
        ensures
            r.id == id,
            r.name@ == name@,
            r.sql_type == sql_type,
            r.nullable == nullable,
    {
        Self { id, name: name.to_owned(), sql_type, nullable }
    }

    pub fn is_nullable(&self) -> (r: bool)
        ensures
            r == self.nullable,
    {
        self.nullable
    }
}

} // verus!
