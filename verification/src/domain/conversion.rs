use vstd::prelude::*;

use crate::domain::types::sql_type::SqlBool;
use crate::domain::types::sql_value::{
    is_truth_error, spec_truth, spec_variant_name, DateValue, SqlValue, TimeValue, TimestampValue,
};
use crate::error::DomainError;

verus! {

/// A value could not be taken out as the Rust type asked for: the type that was expected
/// and the variant that was found.
#[derive(Debug, Clone, PartialEq, Eq)]
pub struct SqlValueConversionError {
    pub expected: &'static str,
    pub found: &'static str,
}

impl SqlValueConversionError {
    pub fn new(expected: &'static str, found: &'static str) -> (r: Self)
        ensures
            r.expected == expected,
            r.found == found,
    {
        Self { expected, found }
    }

    /// The error as a sentence naming both types.
    pub fn message(&self) -> (r: String)
        ensures
            r@ == "Gagal konversi SqlValue: mengharapkan tipe '"@ + self.expected@
                + "', tetapi menemukan tipe '"@ + self.found@ + "'"@,
    {
        let mut s = String::from_str("Gagal konversi SqlValue: mengharapkan tipe '");
        s.append(self.expected);
        s.append("', tetapi menemukan tipe '");
        s.append(self.found);
        s.append("'");
        s
    }
}

/// The error for a value of the wrong variant.
pub open spec fn wrong_variant(expected: &'static str, v: SqlValue) -> DomainError {
    DomainError::Conversion { expected, found: spec_variant_name(v) }
}

impl TryFrom<SqlValue> for i64 {
    type Error = DomainError;

    fn try_from(val: SqlValue) -> (r: Result<Self, Self::Error>) {
        match val {
            SqlValue::Int(n) => Ok(n),
            other => Err(DomainError::conversion("i64", other.variant_name())),
        }
    }
}

impl vstd::std_specs::convert::TryFromSpecImpl<SqlValue> for i64 {
    open spec fn obeys_try_from_spec() -> bool {
        true
    }

    open spec fn try_from_spec(val: SqlValue) -> Result<Self, Self::Error> {
        match val {
            SqlValue::Int(n) => Ok(n),
            other => Err(wrong_variant("i64", other)),
        }
    }
}

impl TryFrom<SqlValue> for i32 {
    type Error = DomainError;

    fn try_from(val: SqlValue) -> (r: Result<Self, Self::Error>) {
        match val {
            SqlValue::Int(n) => {
                if i32::MIN as i64 <= n && n <= i32::MAX as i64 {
                    Ok(n as i32)
                } else {
                    Err(DomainError::conversion("i32 (out of bounds)", "i64"))
                }
            },
            other => Err(DomainError::conversion("i32", other.variant_name())),
        }
    }
}

impl vstd::std_specs::convert::TryFromSpecImpl<SqlValue> for i32 {
    open spec fn obeys_try_from_spec() -> bool {
        true
    }

    open spec fn try_from_spec(val: SqlValue) -> Result<Self, Self::Error> {
        match val {
            SqlValue::Int(n) => if i32::MIN <= n <= i32::MAX {
                Ok(n as i32)
            } else {
                Err(DomainError::Conversion { expected: "i32 (out of bounds)", found: "i64" })
            },
            other => Err(wrong_variant("i32", other)),
        }
    }
}

impl TryFrom<SqlValue> for String {
    type Error = DomainError;

    fn try_from(val: SqlValue) -> (r: Result<Self, Self::Error>) {
        match val {
            SqlValue::Text(s) => Ok(s),
            other => Err(DomainError::conversion("String", other.variant_name())),
        }
    }
}

impl vstd::std_specs::convert::TryFromSpecImpl<SqlValue> for String {
    open spec fn obeys_try_from_spec() -> bool {
        true
    }

    open spec fn try_from_spec(val: SqlValue) -> Result<Self, Self::Error> {
        match val {
            SqlValue::Text(s) => Ok(s),
            other => Err(wrong_variant("String", other)),
        }
    }
}

impl TryFrom<SqlValue> for bool {
    type Error = DomainError;

    fn try_from(val: SqlValue) -> (r: Result<Self, Self::Error>) {
        match val {
            SqlValue::Bool(b) => Ok(b),
            other => Err(DomainError::conversion("bool", other.variant_name())),
        }
    }
}

impl vstd::std_specs::convert::TryFromSpecImpl<SqlValue> for bool {
    open spec fn obeys_try_from_spec() -> bool {
        true
    }

    open spec fn try_from_spec(val: SqlValue) -> Result<Self, Self::Error> {
        match val {
            SqlValue::Bool(b) => Ok(b),
            other => Err(wrong_variant("bool", other)),
        }
    }
}

impl TryFrom<SqlValue> for TimestampValue {
    type Error = DomainError;

    fn try_from(val: SqlValue) -> (r: Result<Self, Self::Error>) {
        match val {
            SqlValue::Timestamp(t) => Ok(t),
            other => Err(DomainError::conversion("DateTime<Utc>", other.variant_name())),
        }
    }
}

impl vstd::std_specs::convert::TryFromSpecImpl<SqlValue> for TimestampValue {
    open spec fn obeys_try_from_spec() -> bool {
        true
    }

    open spec fn try_from_spec(val: SqlValue) -> Result<Self, Self::Error> {
        match val {
            SqlValue::Timestamp(t) => Ok(t),
            other => Err(wrong_variant("DateTime<Utc>", other)),
        }
    }
}

impl TryFrom<SqlValue> for DateValue {
    type Error = DomainError;

    fn try_from(val: SqlValue) -> (r: Result<Self, Self::Error>) {
        match val {
            SqlValue::Date(d) => Ok(d),
            other => Err(DomainError::conversion("NaiveDate", other.variant_name())),
        }
    }
}

impl vstd::std_specs::convert::TryFromSpecImpl<SqlValue> for DateValue {
    open spec fn obeys_try_from_spec() -> bool {
        true
    }

    open spec fn try_from_spec(val: SqlValue) -> Result<Self, Self::Error> {
        match val {
            SqlValue::Date(d) => Ok(d),
            other => Err(wrong_variant("NaiveDate", other)),
        }
    }
}

impl TryFrom<SqlValue> for TimeValue {
    type Error = DomainError;

    fn try_from(val: SqlValue) -> (r: Result<Self, Self::Error>) {
        match val {
            SqlValue::Time(t) => Ok(t),
            other => Err(DomainError::conversion("NaiveTime", other.variant_name())),
        }
    }
}

impl vstd::std_specs::convert::TryFromSpecImpl<SqlValue> for TimeValue {
    open spec fn obeys_try_from_spec() -> bool {
        true
    }

    open spec fn try_from_spec(val: SqlValue) -> Result<Self, Self::Error> {
        match val {
            SqlValue::Time(t) => Ok(t),
            other => Err(wrong_variant("NaiveTime", other)),
        }
    }
}

impl TryFrom<SqlValue> for Vec<u8> {
    type Error = DomainError;

    fn try_from(val: SqlValue) -> (r: Result<Self, Self::Error>) {
        match val {
            SqlValue::Bytes(b) => Ok(b),
            other => Err(DomainError::conversion("Vec<u8>", other.variant_name())),
        }
    }
}

impl vstd::std_specs::convert::TryFromSpecImpl<SqlValue> for Vec<u8> {
    open spec fn obeys_try_from_spec() -> bool {
        true
    }

    open spec fn try_from_spec(val: SqlValue) -> Result<Self, Self::Error> {
        match val {
            SqlValue::Bytes(b) => Ok(b),
            other => Err(wrong_variant("Vec<u8>", other)),
        }
    }
}

impl<'a> TryFrom<&'a SqlValue> for SqlBool {
    type Error = DomainError;

    /// The truth value of a boolean or NULL; any other value is an evaluation error.
    fn try_from(value: &'a SqlValue) -> (r: Result<Self, Self::Error>)
        ensures
            match spec_truth(*value) {
                Some(b) => r == Ok::<SqlBool, DomainError>(b),
                None => is_truth_error(r, *value),
            },
    {
        value.to_sql_bool()
    }
}

impl TryFrom<SqlValue> for SqlBool {
    type Error = DomainError;

    fn try_from(value: SqlValue) -> (r: Result<Self, Self::Error>)
        ensures
            match spec_truth(value) {
                Some(b) => r == Ok::<SqlBool, DomainError>(b),
                None => is_truth_error(r, value),
            },
    {
        value.to_sql_bool()
    }
}

/// The error text of a failed truth conversion is not modelled, so `try_from_spec` is left
/// unclaimed; the two impls above state their results in their own `ensures`.
impl<'a> vstd::std_specs::convert::TryFromSpecImpl<&'a SqlValue> for SqlBool {
    open spec fn obeys_try_from_spec() -> bool {
        false
    }

    open spec fn try_from_spec(value: &'a SqlValue) -> Result<Self, Self::Error> {
        match spec_truth(*value) {
            Some(b) => Ok(b),
            None => Err(vstd::pervasive::arbitrary()),
        }
    }
}

impl vstd::std_specs::convert::TryFromSpecImpl<SqlValue> for SqlBool {
    open spec fn obeys_try_from_spec() -> bool {
        false
    }

    open spec fn try_from_spec(value: SqlValue) -> Result<Self, Self::Error> {
        match spec_truth(value) {
            Some(b) => Ok(b),
            None => Err(vstd::pervasive::arbitrary()),
        }
    }
}

} // verus!
