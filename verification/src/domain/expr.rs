pub mod binary_op;
pub mod evaluator;
pub mod expr;

pub use binary_op::BinaryOp;
pub use evaluator::{eval_binary_op, eval_expr, eval_where, try_eval_expr};
pub use expr::Expr;
