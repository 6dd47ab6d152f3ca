use vstd::prelude::*;

use crate::domain::types::ordering::{float_operand, FloatOperand};
use crate::domain::types::sql_value::SqlValue;
use crate::error::DomainError;

verus! {

/// The arithmetic operators on values.
#[derive(Debug, Clone, Copy, PartialEq, Eq, Structural)]
pub enum ArithOp {
    Add,
    Sub,
    Mul,
    Div,
}

/// What an arithmetic operator gives when it succeeds: a value, or, where a float takes
/// part, the two operands for the caller to combine as floats.
#[derive(Debug, Clone, PartialEq)]
pub enum ArithOutcome {
    Value(SqlValue),
    Floats(FloatOperand, FloatOperand),
}

/// Whether the bit pattern is that of a zero double (positive or negative zero): every bit
/// but the sign is clear.
pub open spec fn is_zero_bits(b: u64) -> bool {
    b & 0x7fff_ffff_ffff_ffffu64 == 0
}

/// Integer division that rounds toward zero, as Rust's `/` does.
pub open spec fn div_toward_zero(a: int, b: int) -> int
    recommends
        b != 0,
{
    let q = (if a < 0 {
        -a
    } else {
        a
    }) / (if b < 0 {
        -b
    } else {
        b
    });
    if (a < 0) != (b < 0) {
        -q
    } else {
        q
    }
}

/// The exact result of an operator on two integers.
pub open spec fn int_result(op: ArithOp, a: int, b: int) -> int {
    match op {
        ArithOp::Add => a + b,
        ArithOp::Sub => a - b,
        ArithOp::Mul => a * b,
        ArithOp::Div => div_toward_zero(a, b),
    }
}

/// Whether a divisor is zero: the integer 0 or a float zero.
pub open spec fn is_zero_divisor(v: SqlValue) -> bool {
    match v {
        SqlValue::Int(n) => n == 0,
        SqlValue::Float(b) => is_zero_bits(b),
        _ => false,
    }
}

/// Whether an operator applies to the kinds of its operands (neither being NULL): two
/// integers, two floats, or an integer and a float, except that a float is not divided by
/// an integer.
pub open spec fn arith_kinds_ok(op: ArithOp, a: SqlValue, b: SqlValue) -> bool {
    match (a, b) {
        (SqlValue::Int(_), SqlValue::Int(_)) => true,
        (SqlValue::Float(_), SqlValue::Float(_)) => true,
        (SqlValue::Int(_), SqlValue::Float(_)) => true,
        (SqlValue::Float(_), SqlValue::Int(_)) => op != ArithOp::Div,
        _ => false,
    }
}

/// The inputs on which Rust's integer operator would overflow and panic.
pub open spec fn int_overflows(op: ArithOp, a: SqlValue, b: SqlValue) -> bool {
    match (a, b) {
        (SqlValue::Int(x), SqlValue::Int(y)) => !(op == ArithOp::Div && y == 0) && !(i64::MIN
            <= int_result(op, x as int, y as int) <= i64::MAX),
        _ => false,
    }
}

/// Whether the operator fails: on a zero divisor (checked first), or on operands of kinds
/// it does not take.
pub open spec fn arith_fails(op: ArithOp, a: SqlValue, b: SqlValue) -> bool {
    &&& !(a is Null)
    &&& !(b is Null)
    &&& ((op == ArithOp::Div && is_zero_divisor(b)) || !arith_kinds_ok(op, a, b))
}

/// The result of an operator that does not fail: NULL when either side is NULL, the exact
/// integer for two integers, the two float operands otherwise.
pub open spec fn arith_outcome(op: ArithOp, a: SqlValue, b: SqlValue) -> ArithOutcome {
    if a is Null || b is Null {
        ArithOutcome::Value(SqlValue::Null)
    } else {
        match (a, b) {
            (SqlValue::Int(x), SqlValue::Int(y)) => ArithOutcome::Value(
                SqlValue::Int(int_result(op, x as int, y as int) as i64),
            ),
            _ => ArithOutcome::Floats(float_operand(a), float_operand(b)),
        }
    }
}

/// The message of the error for operands of the wrong kinds.
pub open spec fn kind_error_message(op: ArithOp) -> Seq<char> {
    match op {
        ArithOp::Add => "Tipe data tidak valid untuk operasi penjumlahan"@,
        ArithOp::Sub => "Tipe data tidak valid untuk operasi pengurangan"@,
        ArithOp::Mul => "Tipe data tidak valid meperoleh operasi perkalian"@,
        ArithOp::Div => "Tipe data tidak valid untuk operasi pembagian"@,
    }
}

/// The message of the error for a zero divisor.
pub open spec fn zero_division_message() -> Seq<char> {
    "Pembagian dengan nol (Division by zero)"@
}

/// The contract of the four operators.
pub open spec fn arith_post(op: ArithOp, a: SqlValue, b: SqlValue, r: Result<ArithOutcome, DomainError>) -> bool {
    if arith_fails(op, a, b) {
        r matches Err(DomainError::EvaluationError(m)) && m@ == (if op == ArithOp::Div
            && is_zero_divisor(b) {
            zero_division_message()
        } else {
            kind_error_message(op)
        })
    } else {
        r == Ok::<ArithOutcome, DomainError>(arith_outcome(op, a, b))
    }
}

fn is_zero_value(v: &SqlValue) -> (r: bool)
    ensures
        r == is_zero_divisor(*v),
{
    match v {
        SqlValue::Int(n) => *n == 0,
        SqlValue::Float(b) => *b & 0x7fff_ffff_ffff_ffffu64 == 0,
        _ => false,
    }
}

fn int_op(op: ArithOp, a: i64, b: i64) -> (r: i64)
    requires
        op == ArithOp::Div ==> b != 0,
        i64::MIN <= int_result(op, a as int, b as int) <= i64::MAX,
    ensures
        r as int == int_result(op, a as int, b as int),
{
    match op {
        ArithOp::Add => a + b,
        ArithOp::Sub => a - b,
        ArithOp::Mul => a * b,
        ArithOp::Div => {
            // Division rounds toward zero; a negative divisor is divided by its magnitude
            // and the quotient negated, which rounds the same way.
            let a2 = a as i128;
            let b2 = b as i128;
            let q: i128 = if b2 > 0 {
                a2 / b2
            } else {
                -(a2 / (-b2))
            };
            q as i64
        },
    }
}

fn arith(op: ArithOp, a: &SqlValue, b: &SqlValue) -> (r: Result<ArithOutcome, DomainError>)
    requires
        !int_overflows(op, *a, *b),
    ensures
        arith_post(op, *a, *b, r),
{
    if a.is_null() || b.is_null() {
        return Ok(ArithOutcome::Value(SqlValue::Null));
    }
    if op == ArithOp::Div && is_zero_value(b) {
        return Err(DomainError::EvaluationError(
            String::from_str("Pembagian dengan nol (Division by zero)"),
        ));
    }
    match (a, b) {
        (SqlValue::Int(x), SqlValue::Int(y)) => Ok(
            ArithOutcome::Value(SqlValue::Int(int_op(op, *x, *y))),
        ),
        (SqlValue::Float(x), SqlValue::Float(y)) => Ok(
            ArithOutcome::Floats(FloatOperand::Bits(*x), FloatOperand::Bits(*y)),
        ),
        (SqlValue::Int(x), SqlValue::Float(y)) => Ok(
            ArithOutcome::Floats(FloatOperand::Int(*x), FloatOperand::Bits(*y)),
        ),
        (SqlValue::Float(x), SqlValue::Int(y)) if op != ArithOp::Div => Ok(
            ArithOutcome::Floats(FloatOperand::Bits(*x), FloatOperand::Int(*y)),
        ),
        _ => {
            let msg = match op {
                ArithOp::Add => "Tipe data tidak valid untuk operasi penjumlahan",
                ArithOp::Sub => "Tipe data tidak valid untuk operasi pengurangan",
                ArithOp::Mul => "Tipe data tidak valid meperoleh operasi perkalian",
                ArithOp::Div => "Tipe data tidak valid untuk operasi pembagian",
            };
            Err(DomainError::EvaluationError(String::from_str(msg)))
        },
    }
}

impl SqlValue {
    /// `+`: NULL when either side is NULL; integers add exactly; where a float takes part
    /// the two float operands come back for the caller to add.
    pub fn add(&self, other: &Self) -> (r: Result<ArithOutcome, DomainError>)
        requires
            !int_overflows(ArithOp::Add, *self, *other),
        ensures
            arith_post(ArithOp::Add, *self, *other, r),
    {
        arith(ArithOp::Add, self, other)
    }

    /// `-`, as `add` with subtraction.
    pub fn sub(&self, other: &Self) -> (r: Result<ArithOutcome, DomainError>)
        requires
            !int_overflows(ArithOp::Sub, *self, *other),
        ensures
            arith_post(ArithOp::Sub, *self, *other, r),
    {
        arith(ArithOp::Sub, self, other)
    }

    /// `*`, as `add` with multiplication.
    pub fn mul(&self, other: &Self) -> (r: Result<ArithOutcome, DomainError>)
        requires
            !int_overflows(ArithOp::Mul, *self, *other),
        ensures
            arith_post(ArithOp::Mul, *self, *other, r),
    {
        arith(ArithOp::Mul, self, other)
    }

    /// `/`: a zero divisor is an error before anything else; integers divide rounding
    /// toward zero; a float is not divided by an integer.
    pub fn div(&self, other: &Self) -> (r: Result<ArithOutcome, DomainError>)
        requires
            !int_overflows(ArithOp::Div, *self, *other),
        ensures
            arith_post(ArithOp::Div, *self, *other, r),
    {
        arith(ArithOp::Div, self, other)
    }
}

/// NULL on either side of an arithmetic operator gives NULL, even for a zero divisor.
pub proof fn lemma_null_propagates(op: ArithOp, a: SqlValue, b: SqlValue)
    requires
        a is Null || b is Null,
    ensures
        !arith_fails(op, a, b),
        arith_outcome(op, a, b) == ArithOutcome::Value(SqlValue::Null),
{
}

/// Integer addition and multiplication do not depend on the order of the operands.
pub proof fn lemma_int_add_mul_commute(op: ArithOp, x: i64, y: i64)
    requires
        op == ArithOp::Add || op == ArithOp::Mul,
    ensures
        arith_outcome(op, SqlValue::Int(x), SqlValue::Int(y)) == arith_outcome(
            op,
            SqlValue::Int(y),
            SqlValue::Int(x),
        ),
        int_overflows(op, SqlValue::Int(x), SqlValue::Int(y)) == int_overflows(
            op,
            SqlValue::Int(y),
            SqlValue::Int(x),
        ),
{
    assert(x * y == y * x) by (nonlinear_arith);
}

/// Integer arithmetic is exact: `+`, `-` and `*` give the sum, difference and product;
/// `/` by zero is the division error, and otherwise gives the quotient `q` for which
/// `x - q * y` is smaller than `y` in size and has the sign of `x` (or is zero).
pub proof fn lemma_int_arithmetic(op: ArithOp, x: i64, y: i64, r: Result<ArithOutcome, DomainError>)
    requires
        !int_overflows(op, SqlValue::Int(x), SqlValue::Int(y)),
        arith_post(op, SqlValue::Int(x), SqlValue::Int(y), r),
    ensures
        op == ArithOp::Add ==> (r matches Ok(ArithOutcome::Value(SqlValue::Int(z))) && z == x + y),
        op == ArithOp::Sub ==> (r matches Ok(ArithOutcome::Value(SqlValue::Int(z))) && z == x - y),
        op == ArithOp::Mul ==> (r matches Ok(ArithOutcome::Value(SqlValue::Int(z))) && z == x * y),
        op == ArithOp::Div && y == 0 ==> (r matches Err(DomainError::EvaluationError(m)) && m@
            == "Pembagian dengan nol (Division by zero)"@),
        op == ArithOp::Div && y != 0 ==> (r matches Ok(ArithOutcome::Value(SqlValue::Int(q))) && {
            let rem = x - q * y;
            &&& (if rem < 0 {
                -rem
            } else {
                rem
            }) < (if y < 0 {
                -y
            } else {
                y as int
            })
            &&& (rem == 0 || (rem < 0) == (x < 0))
        }),
{
    if op == ArithOp::Div && y != 0 {
        lemma_div_toward_zero(x as int, y as int);
    }
}

/// Division rounds toward zero: the quotient times the divisor, plus a remainder smaller
/// than the divisor and of the dividend's sign, gives the dividend back.
pub proof fn lemma_div_toward_zero(a: int, b: int)
    requires
        b != 0,
    ensures
        ({
            let q = div_toward_zero(a, b);
            let r = a - q * b;
            &&& (if r < 0 {
                -r
            } else {
                r
            }) < (if b < 0 {
                -b
            } else {
                b
            })
            &&& (r == 0 || (r < 0) == (a < 0))
        }),
{
    let aa = if a < 0 {
        -a
    } else {
        a
    };
    let bb = if b < 0 {
        -b
    } else {
        b
    };
    let q0 = aa / bb;
    assert(aa == q0 * bb + aa % bb && 0 <= aa % bb < bb) by (nonlinear_arith)
        requires
            bb > 0,
            aa >= 0,
            q0 == aa / bb,
    ;
    let q = div_toward_zero(a, b);
    assert(q * b == (if a < 0 {
        -(q0 * bb)
    } else {
        q0 * bb
    })) by (nonlinear_arith)
        requires
            bb == (if b < 0 {
                -b
            } else {
                b
            }),
            q == (if (a < 0) != (b < 0) {
                -q0
            } else {
                q0
            }),
    ;
}

} // verus!
