use vstd::prelude::*;

pub mod catalog;
pub mod disk;
pub mod domain;
pub mod error;
pub mod text;

pub use domain::{
    BinaryOp, ColumnDef, Expr, Row, Schema, SqlBool, SqlType, SqlValue, Table, TableConstraint,
};
pub use error::DomainError;

verus! {

} // verus!
