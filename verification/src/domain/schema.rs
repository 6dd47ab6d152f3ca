pub mod sql_column;
pub mod sql_schema;
pub mod table_constraint;

pub use sql_column::ColumnDef;
pub use sql_schema::Schema;
pub use table_constraint::TableConstraint;
