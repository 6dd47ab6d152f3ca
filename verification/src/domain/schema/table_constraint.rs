use vstd::prelude::*;

use crate::domain::expr::expr::Expr;

verus! {

/// Constraints that span the columns of a table.
#[derive(Debug, PartialEq)]
pub enum TableConstraint {
    /// A composite primary key.
    PrimaryKey(Vec<String>),
    /// A composite unique key.
    Unique(Vec<String>),
    /// A reference to the key of another table.
    ForeignKey { columns: Vec<String>, foreign_table: String, foreign_columns: Vec<String> },
    /// A check on the values of a row.
    Check(Expr),
}

} // verus!
