pub mod action;
pub mod dml_action;
pub mod id;
pub mod name_index;
pub mod registry;
pub mod table;

pub use action::{ColumnPosition, DmlResult};
pub use id::{ColumnId, RowId, TableId};
