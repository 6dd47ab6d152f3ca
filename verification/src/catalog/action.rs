use vstd::prelude::*;

verus! {

/// Where ALTER TABLE ADD COLUMN places the new column.
#[derive(Debug, Clone, PartialEq)]
pub enum ColumnPosition {
    /// After the last column, as ANSI SQL does.
    Default,
    /// Before every other column.
    First,
    /// Right after the named column.
    After(String),
}

/// What a DML statement did: how many rows it inserted, updated or deleted.
#[derive(Debug, Clone, Copy, PartialEq, Eq, Structural)]
pub enum DmlResult {
    Inserted(usize),
    Updated(usize),
    Deleted(usize),
}

} // verus!
