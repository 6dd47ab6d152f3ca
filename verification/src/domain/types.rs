pub mod arithmetic;
pub mod cast;
pub mod ordering;
pub mod sql_type;
pub mod sql_value;
pub mod temporal;

pub use sql_type::{SqlBool, SqlType};
pub use sql_value::SqlValue;
pub use ordering::{Comparison, FloatOperand, ValueOrder};
pub use arithmetic::{ArithOp, ArithOutcome};
pub use cast::{CastOutcome, FloatCast};
