use vstd::prelude::*;

use crate::domain::types::sql_type::SqlType;
use crate::domain::types::sql_value::{spec_variant_name, SqlValue};
use crate::domain::types::temporal::{
    bad_date_message, bad_time_message, chrono_date_parse, chrono_time_parse,
};
use crate::error::DomainError;
use crate::text::{
    i64_to_decimal, int_to_decimal, parse_i64, parse_i64_spec, str_to_lowercase, to_lowercase,
    lemma_trimmed_decimal_round_trip, trim, trimmed,
};

verus! {

/// A cast with a float on one side, which the caller computes: an integer to a float, a
/// float (by its bits) to an integer or to text, or trimmed text to a float.
#[derive(Debug, Clone, PartialEq)]
pub enum FloatCast {
    IntToFloat(i64),
    FloatToInt(u64),
    FloatToText(u64),
    TextToFloat { text: String, source: String },
}

/// What a cast gives when it succeeds: the value, or the float cast that yields it.
#[derive(Debug, Clone, PartialEq)]
pub enum CastOutcome {
    Value(SqlValue),
    Float(FloatCast),
}

/// The text that casts to true, and the text that casts to false, once trimmed and
/// lowercased.
pub open spec fn true_text(s: Seq<char>) -> bool {
    s == "true"@ || s == "1"@ || s == "t"@
}

pub open spec fn false_text(s: Seq<char>) -> bool {
    s == "false"@ || s == "0"@ || s == "f"@
}

/// The message for text that does not cast to the named type.
pub open spec fn bad_text_message(s: Seq<char>, type_label: Seq<char>) -> Seq<char> {
    "Gagal mengonversi teks '"@ + s + "' ke "@ + type_label
}

/// The message for text that is not a variant of an enum type.
pub open spec fn bad_variant_message(s: Seq<char>, name: Seq<char>) -> Seq<char> {
    "Nilai '"@ + s + "' tidak valid untuk varian Enum '"@ + name + "'"@
}

pub open spec fn has_variant(variants: Seq<String>, s: Seq<char>) -> bool {
    exists|i: int| 0 <= i < variants.len() && (#[trigger] variants[i])@ == s
}

/// Whether `r` is an evaluation error with the given message.
pub open spec fn is_eval_error(r: Result<CastOutcome, DomainError>, m: Seq<char>) -> bool {
    r matches Err(DomainError::EvaluationError(msg)) && msg@ == m
}

/// The contract of `try_cast_to`, case by case.
pub open spec fn cast_post(v: SqlValue, t: SqlType, r: Result<CastOutcome, DomainError>) -> bool {
    if v is Null {
        r == Ok::<CastOutcome, DomainError>(CastOutcome::Value(SqlValue::Null))
    } else {
        match (v, t) {
            (SqlValue::Int(_), SqlType::Int) => r == Ok::<CastOutcome, DomainError>(
                CastOutcome::Value(v),
            ),
            (SqlValue::Float(_), SqlType::Float) => r == Ok::<CastOutcome, DomainError>(
                CastOutcome::Value(v),
            ),
            (SqlValue::Text(_), SqlType::Text) => r == Ok::<CastOutcome, DomainError>(
                CastOutcome::Value(v),
            ),
            (SqlValue::Bool(_), SqlType::Bool) => r == Ok::<CastOutcome, DomainError>(
                CastOutcome::Value(v),
            ),
            (SqlValue::Int(x), SqlType::Float) => r == Ok::<CastOutcome, DomainError>(
                CastOutcome::Float(FloatCast::IntToFloat(x)),
            ),
            (SqlValue::Float(b), SqlType::Int) => r == Ok::<CastOutcome, DomainError>(
                CastOutcome::Float(FloatCast::FloatToInt(b)),
            ),
            (SqlValue::Float(b), SqlType::Text) => r == Ok::<CastOutcome, DomainError>(
                CastOutcome::Float(FloatCast::FloatToText(b)),
            ),
            (SqlValue::Int(x), SqlType::Text) => r matches Ok(
                CastOutcome::Value(SqlValue::Text(s)),
            ) && s@ == int_to_decimal(x as int),
            (SqlValue::Bool(b), SqlType::Text) => r matches Ok(
                CastOutcome::Value(SqlValue::Text(s)),
            ) && s@ == (if b {
                "true"@
            } else {
                "false"@
            }),
            (SqlValue::Text(s), SqlType::Int) => match parse_i64_spec(trimmed(s@)) {
                Some(n) => r == Ok::<CastOutcome, DomainError>(
                    CastOutcome::Value(SqlValue::Int(n)),
                ),
                None => is_eval_error(r, bad_text_message(s@, "Int"@)),
            },
            (SqlValue::Text(s), SqlType::Float) => r matches Ok(
                CastOutcome::Float(FloatCast::TextToFloat { text, source }),
            ) && text@ == trimmed(s@) && source@ == s@,
            (SqlValue::Text(s), SqlType::Bool) => {
                let l = str_to_lowercase(trimmed(s@));
                if true_text(l) {
                    r == Ok::<CastOutcome, DomainError>(CastOutcome::Value(SqlValue::Bool(true)))
                } else if false_text(l) {
                    r == Ok::<CastOutcome, DomainError>(CastOutcome::Value(SqlValue::Bool(false)))
                } else {
                    is_eval_error(r, bad_text_message(s@, "Bool"@))
                }
            },
            (SqlValue::Text(s), SqlType::Date) => match chrono_date_parse(s@, "%Y-%m-%d"@) {
                Ok(n) => r matches Ok(CastOutcome::Value(SqlValue::Date(d))) && d.days_from_ce
                    == n,
                Err(m) => r matches Err(DomainError::InvalidExpression(msg)) && msg@
                    == bad_date_message(s@, m),
            },
            (SqlValue::Text(s), SqlType::Time) => match chrono_time_parse(s@, "%H:%M:%S"@) {
                Ok(p) => r matches Ok(CastOutcome::Value(SqlValue::Time(tv))) && (
                tv.secs as int,
                tv.nanos as int,
                ) == p,
                Err(_) => match chrono_time_parse(s@, "%H:%M"@) {
                    Ok(p) => r matches Ok(CastOutcome::Value(SqlValue::Time(tv))) && (
                    tv.secs as int,
                    tv.nanos as int,
                    ) == p,
                    Err(m) => r matches Err(DomainError::InvalidExpression(msg)) && msg@
                        == bad_time_message(s@, m),
                },
            },
            (SqlValue::Text(s), SqlType::Enum { name, variants }) => if has_variant(
                variants@,
                s@,
            ) {
                r == Ok::<CastOutcome, DomainError>(
                    CastOutcome::Value(SqlValue::Enum { type_label: name, value: s }),
                )
            } else {
                is_eval_error(r, bad_variant_message(s@, name@))
            },
            (SqlValue::Text(s), SqlType::Custom(n)) => r == Ok::<CastOutcome, DomainError>(
                CastOutcome::Value(SqlValue::Custom { type_label: n, value: s }),
            ),
            _ => is_eval_error(r, unsupported_cast_message(v, t)),
        }
    }
}

fn has_variant_exec(variants: &Vec<String>, s: &String) -> (r: bool)
    ensures
        r == has_variant(variants@, s@),
{
    let mut i: usize = 0;
    while i < variants.len()
        invariant
            i <= variants@.len(),
            forall|j: int| 0 <= j < i ==> (#[trigger] variants@[j])@ != s@,
        decreases variants@.len() - i,
    {
        if variants[i] == *s {
            assert((variants@[i as int])@ == s@);
            return true;
        }
        i = i + 1;
    }
    false
}

/// Whether `s` is one of the three strings.
fn is_any_of(s: &String, a: &str, b: &str, c: &str) -> (r: bool)
    ensures
        r == (s@ == a@ || s@ == b@ || s@ == c@),
{
    *s == String::from_str(a) || *s == String::from_str(b) || *s == String::from_str(c)
}

/// `a`, then `b`, then `c`, then `d`.
fn concat4(a: &str, b: &str, c: &str, d: &str) -> (r: String)
    ensures
        r@ == a@ + b@ + c@ + d@,
{
    let mut s = String::from_str(a);
    s.append(b);
    s.append(c);
    s.append(d);
    s
}

/// `a`, then `b`, then `c`, then `d`, then `e`.
fn concat5(a: &str, b: &str, c: &str, d: &str, e: &str) -> (r: String)
    ensures
        r@ == a@ + b@ + c@ + d@ + e@,
{
    let mut s = String::from_str(a);
    s.append(b);
    s.append(c);
    s.append(d);
    s.append(e);
    s
}

/// The name of a type, as the error of a cast that is not supported gives it.
pub open spec fn spec_type_label(t: SqlType) -> &'static str {
    match t {
        SqlType::Int => "Int",
        SqlType::Float => "Float",
        SqlType::Text => "Text",
        SqlType::Bool => "Bool",
        SqlType::Bytes => "Bytes",
        SqlType::Timestamp => "Timestamp",
        SqlType::Date => "Date",
        SqlType::Time => "Time",
        SqlType::Enum { .. } => "Enum",
        SqlType::Custom(_) => "Custom",
    }
}

/// The message of the error for a cast that is not supported.
pub open spec fn unsupported_cast_message(v: SqlValue, t: SqlType) -> Seq<char> {
    "Konversi tipe data dari '"@ + spec_variant_name(v)@ + "' ke '"@ + spec_type_label(t)@
        + "' tidak didukung"@
}

pub(crate) fn type_label(t: &SqlType) -> (r: &'static str)
    ensures
        r == spec_type_label(*t),
{
    match t {
        SqlType::Int => "Int",
        SqlType::Float => "Float",
        SqlType::Text => "Text",
        SqlType::Bool => "Bool",
        SqlType::Bytes => "Bytes",
        SqlType::Timestamp => "Timestamp",
        SqlType::Date => "Date",
        SqlType::Time => "Time",
        SqlType::Enum { .. } => "Enum",
        SqlType::Custom(_) => "Custom",
    }
}

impl SqlValue {
    /// The error for text that does not read as a float.
    pub fn float_text_error(source: &str) -> (e: DomainError)
        ensures
            e matches DomainError::EvaluationError(m) && m@ == bad_text_message(source@, "Float"@),
    {
        DomainError::EvaluationError(concat4("Gagal mengonversi teks '", source, "' ke ", "Float"))
    }

    /// Casts a value to a type: NULL stays NULL; a value keeps its own type; integers and
    /// booleans become text; text is read as an integer, a boolean (`true`, `1`, `t`,
    /// `false`, `0`, `f`, in any case), a date, a time, a variant of an enum type or a
    /// custom value. A cast with a float on one side is handed back to the caller. Any
    /// other cast is an evaluation error.
    pub fn try_cast_to(&self, target_type: &SqlType) -> (r: Result<CastOutcome, DomainError>)
        ensures
            cast_post(*self, *target_type, r),
    {
        if self.is_null() {
            return Ok(CastOutcome::Value(SqlValue::Null));
        }
        match (self, target_type) {
            (SqlValue::Int(v), SqlType::Int) => Ok(CastOutcome::Value(SqlValue::Int(*v))),
            (SqlValue::Float(v), SqlType::Float) => Ok(CastOutcome::Value(SqlValue::Float(*v))),
            (SqlValue::Text(v), SqlType::Text) => Ok(CastOutcome::Value(SqlValue::Text(v.clone()))),
            (SqlValue::Bool(v), SqlType::Bool) => Ok(CastOutcome::Value(SqlValue::Bool(*v))),
            (SqlValue::Int(v), SqlType::Float) => Ok(CastOutcome::Float(FloatCast::IntToFloat(*v))),
            (SqlValue::Float(v), SqlType::Int) => Ok(CastOutcome::Float(FloatCast::FloatToInt(*v))),
            (SqlValue::Int(v), SqlType::Text) => Ok(
                CastOutcome::Value(SqlValue::Text(i64_to_decimal(*v))),
            ),
            (SqlValue::Float(v), SqlType::Text) => Ok(
                CastOutcome::Float(FloatCast::FloatToText(*v)),
            ),
            (SqlValue::Bool(v), SqlType::Text) => {
                let s = if *v {
                    String::from_str("true")
                } else {
                    String::from_str("false")
                };
                Ok(CastOutcome::Value(SqlValue::Text(s)))
            },
            (SqlValue::Text(s), SqlType::Int) => match parse_i64(trim(s.as_str())) {
                Some(n) => Ok(CastOutcome::Value(SqlValue::Int(n))),
                None => Err(
                    DomainError::EvaluationError(
                        concat4("Gagal mengonversi teks '", s.as_str(), "' ke ", "Int"),
                    ),
                ),
            },
            (SqlValue::Text(s), SqlType::Float) => {
                let text = String::from_str(trim(s.as_str()));
                Ok(CastOutcome::Float(FloatCast::TextToFloat { text, source: s.clone() }))
            },
            (SqlValue::Text(s), SqlType::Bool) => {
                let l = to_lowercase(trim(s.as_str()));
                if is_any_of(&l, "true", "1", "t") {
                    Ok(CastOutcome::Value(SqlValue::Bool(true)))
                } else if is_any_of(&l, "false", "0", "f") {
                    Ok(CastOutcome::Value(SqlValue::Bool(false)))
                } else {
                    Err(
                        DomainError::EvaluationError(
                            concat4("Gagal mengonversi teks '", s.as_str(), "' ke ", "Bool"),
                        ),
                    )
                }
            },
            (SqlValue::Text(s), SqlType::Date) => match Self::parse_date(s.as_str()) {
                Ok(v) => Ok(CastOutcome::Value(v)),
                Err(e) => Err(e),
            },
            (SqlValue::Text(s), SqlType::Time) => match Self::parse_time(s.as_str()) {
                Ok(v) => Ok(CastOutcome::Value(v)),
                Err(e) => Err(e),
            },
            (SqlValue::Text(s), SqlType::Enum { name, variants }) => {
                if has_variant_exec(variants, s) {
                    Ok(
                        CastOutcome::Value(
                            SqlValue::Enum { type_label: name.clone(), value: s.clone() },
                        ),
                    )
                } else {
                    Err(
                        DomainError::EvaluationError(
                            concat5(
                                "Nilai '",
                                s.as_str(),
                                "' tidak valid untuk varian Enum '",
                                name.as_str(),
                                "'",
                            ),
                        ),
                    )
                }
            },
            (SqlValue::Text(s), SqlType::Custom(custom)) => Ok(
                CastOutcome::Value(SqlValue::Custom { type_label: custom.clone(), value: s.clone() }),
            ),
            _ => Err(
                DomainError::EvaluationError(
                    concat5(
                        "Konversi tipe data dari '",
                        self.variant_name(),
                        "' ke '",
                        type_label(target_type),
                        "' tidak didukung",
                    ),
                ),
            ),
        }
    }
}

/// Casting an integer to text and the text back to an integer gives the integer again,
/// and NULL casts to NULL whatever the type.
pub proof fn lemma_cast_round_trip(
    n: i64,
    s: String,
    to_text: Result<CastOutcome, DomainError>,
    back: Result<CastOutcome, DomainError>,
    t: SqlType,
    null_cast: Result<CastOutcome, DomainError>,
)
    requires
        cast_post(SqlValue::Int(n), SqlType::Text, to_text),
        to_text matches Ok(CastOutcome::Value(SqlValue::Text(text))) && text == s,
        cast_post(SqlValue::Text(s), SqlType::Int, back),
        cast_post(SqlValue::Null, t, null_cast),
    ensures
        s@ == int_to_decimal(n as int),
        back == Ok::<CastOutcome, DomainError>(CastOutcome::Value(SqlValue::Int(n))),
        null_cast == Ok::<CastOutcome, DomainError>(CastOutcome::Value(SqlValue::Null)),
{
    lemma_trimmed_decimal_round_trip(n);
}

/// Text casts to a boolean by its trimmed, lowercased form: `true`, `1` and `t` give true,
/// `false`, `0` and `f` give false, and any other text is the cast error.
pub proof fn lemma_text_to_bool(s: String, r: Result<CastOutcome, DomainError>)
    requires
        cast_post(SqlValue::Text(s), SqlType::Bool, r),
    ensures
        ({
            let l = str_to_lowercase(trimmed(s@));
            &&& (l == "true"@ || l == "1"@ || l == "t"@) ==> r == Ok::<CastOutcome, DomainError>(
                CastOutcome::Value(SqlValue::Bool(true)),
            )
            &&& (l == "false"@ || l == "0"@ || l == "f"@) ==> r == Ok::<CastOutcome, DomainError>(
                CastOutcome::Value(SqlValue::Bool(false)),
            )
            &&& !(l == "true"@ || l == "1"@ || l == "t"@ || l == "false"@ || l == "0"@ || l
                == "f"@) ==> (r matches Err(DomainError::EvaluationError(m)) && m@
                == "Gagal mengonversi teks '"@ + s@ + "' ke Bool"@)
        }),
{
    let l = str_to_lowercase(trimmed(s@));
    reveal_strlit("true");
    reveal_strlit("1");
    reveal_strlit("t");
    reveal_strlit("false");
    reveal_strlit("0");
    reveal_strlit("f");
    assert("true"@.len() == 4 && "false"@.len() == 5 && "1"@.len() == 1 && "t"@.len() == 1);
    assert("0"@.len() == 1 && "f"@.len() == 1);
    assert("1"@[0] == '1' && "t"@[0] == 't' && "0"@[0] == '0' && "f"@[0] == 'f');
    assert("1"@ != "0"@ && "1"@ != "f"@ && "t"@ != "0"@ && "t"@ != "f"@);
    reveal_strlit("' ke ");
    reveal_strlit("Bool");
    reveal_strlit("' ke Bool");
    assert("Gagal mengonversi teks '"@ + s@ + "' ke "@ + "Bool"@ =~= "Gagal mengonversi teks '"@ + s@
        + "' ke Bool"@);
}

} // verus!
