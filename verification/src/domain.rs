pub mod conversion;
pub mod expr;
pub mod id;
pub mod schema;
pub mod sql_row;
pub mod table;
pub mod types;

pub use conversion::SqlValueConversionError;
pub use expr::{BinaryOp, Expr};
pub use id::{ColumnId, DatabaseId, IdGenerator, RowId, TableId};
pub use schema::{ColumnDef, Schema, TableConstraint};
pub use sql_row::Row;
pub use table::Table;
pub use types::{SqlBool, SqlType, SqlValue};
