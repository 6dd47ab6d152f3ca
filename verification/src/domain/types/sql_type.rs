use std::ops::Not;
use vstd::prelude::*;

verus! {

/// The SQL data types a column can have.
#[non_exhaustive]
#[derive(Debug, Clone, PartialEq, Eq, Hash)]
pub enum SqlType {
    Int,
    Float,
    Text,
    Bool,
    Bytes,
    Timestamp,
    Date,
    Time,
    /// An enumeration with its name and its allowed variants.
    Enum { name: String, variants: Vec<String> },
    Custom(String),
}

/// Truth values of SQL's three-valued logic.
#[derive(Debug, Clone, Copy, PartialEq, Eq, Structural)]
pub enum SqlBool {
    True,
    False,
    Unknown,
}

/// NOT: swaps true and false, keeps unknown.
pub open spec fn spec_not(a: SqlBool) -> SqlBool {
    match a {
        SqlBool::True => SqlBool::False,
        SqlBool::False => SqlBool::True,
        SqlBool::Unknown => SqlBool::Unknown,
    }
}

/// AND: false wins, then unknown, true only when both are true.
pub open spec fn spec_and(a: SqlBool, b: SqlBool) -> SqlBool {
    if a == SqlBool::False || b == SqlBool::False {
        SqlBool::False
    } else if a == SqlBool::True && b == SqlBool::True {
        SqlBool::True
    } else {
        SqlBool::Unknown
    }
}

/// OR: true wins, then unknown, false only when both are false.
pub open spec fn spec_or(a: SqlBool, b: SqlBool) -> SqlBool {
    if a == SqlBool::True || b == SqlBool::True {
        SqlBool::True
    } else if a == SqlBool::False && b == SqlBool::False {
        SqlBool::False
    } else {
        SqlBool::Unknown
    }
}

impl Not for SqlBool {
    type Output = Self;

    fn not(self) -> (r: Self::Output) {
        match self {
            SqlBool::True => SqlBool::False,
            SqlBool::False => SqlBool::True,
            SqlBool::Unknown => SqlBool::Unknown,
        }
    }
}

impl vstd::std_specs::ops::NotSpecImpl for SqlBool {
    open spec fn obeys_not_spec() -> bool {
        true
    }

    open spec fn not_req(self) -> bool {
        true
    }

    open spec fn not_spec(self) -> Self {
        spec_not(self)
    }
}

impl SqlBool {
    /// AND of three-valued logic.
    pub fn and(self, other: Self) -> (r: Self)
        ensures
            r == spec_and(self, other),
    {
        match (self, other) {
            (SqlBool::False, _) | (_, SqlBool::False) => SqlBool::False,
            (SqlBool::True, SqlBool::True) => SqlBool::True,
            _ => SqlBool::Unknown,
        }
    }

    /// OR of three-valued logic.
    pub fn or(self, other: Self) -> (r: Self)
        ensures
            r == spec_or(self, other),
    {
        match (self, other) {
            (SqlBool::True, _) | (_, SqlBool::True) => SqlBool::True,
            (SqlBool::False, SqlBool::False) => SqlBool::False,
            _ => SqlBool::Unknown,
        }
    }
    /// Whether the truth value is true; false and unknown are not.
    pub fn is_true(self) -> (r: bool)
        ensures
            r == (self == SqlBool::True),
    {
        match self {
            SqlBool::True => true,
            _ => false,
        }
    }
}

/// The truth value of a two-valued boolean.
pub open spec fn spec_from_bool(b: bool) -> SqlBool {
    if b {
        SqlBool::True
    } else {
        SqlBool::False
    }
}

impl From<bool> for SqlBool {
    fn from(cond: bool) -> (r: Self) {
        if cond {
            SqlBool::True
        } else {
            SqlBool::False
        }
    }
}

impl vstd::std_specs::convert::FromSpecImpl<bool> for SqlBool {
    open spec fn obeys_from_spec() -> bool {
        true
    }

    open spec fn from_spec(cond: bool) -> Self {
        spec_from_bool(cond)
    }
}

// ---------------------------------------------------------------------------
// Laws of three-valued logic
// ---------------------------------------------------------------------------

/// NOT undoes itself.
pub proof fn lemma_not_involutive(a: SqlBool)
    ensures
        spec_not(spec_not(a)) == a,
{
}

/// AND and OR do not depend on the order of their operands.
pub proof fn lemma_and_or_commutative(a: SqlBool, b: SqlBool)
    ensures
        spec_and(a, b) == spec_and(b, a),
        spec_or(a, b) == spec_or(b, a),
{
}

/// AND and OR group either way.
pub proof fn lemma_and_or_associative(a: SqlBool, b: SqlBool, c: SqlBool)
    ensures
        spec_and(spec_and(a, b), c) == spec_and(a, spec_and(b, c)),
        spec_or(spec_or(a, b), c) == spec_or(a, spec_or(b, c)),
{
}

/// De Morgan's laws hold in three-valued logic.
pub proof fn lemma_de_morgan(a: SqlBool, b: SqlBool)
    ensures
        spec_not(spec_and(a, b)) == spec_or(spec_not(a), spec_not(b)),
        spec_not(spec_or(a, b)) == spec_and(spec_not(a), spec_not(b)),
{
}

/// TRUE is the identity of AND and FALSE the identity of OR; FALSE absorbs AND and TRUE
/// absorbs OR.
pub proof fn lemma_identity_and_absorption(a: SqlBool)
    ensures
        spec_and(SqlBool::True, a) == a,
        spec_or(SqlBool::False, a) == a,
        spec_and(SqlBool::False, a) == SqlBool::False,
        spec_or(SqlBool::True, a) == SqlBool::True,
{
}

/// AND and OR distribute over each other.
pub proof fn lemma_distributive(a: SqlBool, b: SqlBool, c: SqlBool)
    ensures
        spec_and(a, spec_or(b, c)) == spec_or(spec_and(a, b), spec_and(a, c)),
        spec_or(a, spec_and(b, c)) == spec_and(spec_or(a, b), spec_or(a, c)),
{
}

/// On two-valued inputs, three-valued logic agrees with ordinary boolean logic.
pub proof fn lemma_agrees_with_bool(x: bool, y: bool)
    ensures
        spec_and(spec_from_bool(x), spec_from_bool(y)) == spec_from_bool(x && y),
        spec_or(spec_from_bool(x), spec_from_bool(y)) == spec_from_bool(x || y),
        spec_not(spec_from_bool(x)) == spec_from_bool(!x),
{
}

} // verus!
