use vstd::prelude::*;

use crate::domain::expr::binary_op::BinaryOp;
use crate::domain::id::ColumnId;
use crate::domain::types::sql_value::SqlValue;

verus! {

/// An SQL expression over the columns of one row.
#[derive(Debug, PartialEq, Eq)]
pub enum Expr {
    Literal(SqlValue),
    Column(ColumnId),
    Binary { left: Box<Expr>, op: BinaryOp, right: Box<Expr> },
    Not(Box<Expr>),
    IsNull(Box<Expr>),
    IsNotNull(Box<Expr>),
    InList { expr: Box<Expr>, list: Vec<Expr> },
}

impl Expr {
    /// `left op right`.
    pub fn binary(left: Expr, op: BinaryOp, right: Expr) -> (r: Self)
        ensures
            r == (Expr::Binary { left: Box::new(left), op, right: Box::new(right) }),
    {
        Expr::Binary { left: Box::new(left), op, right: Box::new(right) }
    }

    /// The value of a column.
    pub fn col(id: ColumnId) -> (r: Self)
        ensures
            r == Expr::Column(id),
    {
        Expr::Column(id)
    }

    /// A constant.
    pub fn lit(val: SqlValue) -> (r: Self)
        ensures
            r == Expr::Literal(val),
    {
        Expr::Literal(val)
    }

    /// `NOT expr`.
    pub fn not(expr: Expr) -> (r: Self)
        ensures
            r == Expr::Not(Box::new(expr)),
    {
        Expr::Not(Box::new(expr))
    }

    /// `expr IS NULL`.
    pub fn is_null(expr: Expr) -> (r: Self)
        ensures
            r == Expr::IsNull(Box::new(expr)),
    {
        Expr::IsNull(Box::new(expr))
    }

    /// `expr IS NOT NULL`.
    pub fn is_not_null(expr: Expr) -> (r: Self)
        ensures
            r == Expr::IsNotNull(Box::new(expr)),
    {
        Expr::IsNotNull(Box::new(expr))
    }

    /// `expr IN (list)`.
    pub fn in_list(expr: Expr, list: Vec<Expr>) -> (r: Self)
        ensures
            r == (Expr::InList { expr: Box::new(expr), list }),
    {
        Expr::InList { expr: Box::new(expr), list }
    }
}

} // verus!
