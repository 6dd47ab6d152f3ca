use vstd::prelude::*;

use crate::domain::types::arithmetic::is_zero_bits;
use crate::domain::types::sql_type::{spec_and, spec_from_bool, spec_or, SqlBool, SqlType};
use crate::error::DomainError;
use crate::text::push_char;

verus! {

/// A UTC instant: whole seconds since the Unix epoch and the nanoseconds past them.
#[derive(Debug, Clone, Copy, PartialEq, Eq, Structural, Hash)]
pub struct TimestampValue {
    pub secs: i64,
    pub nanos: u32,
}

/// A calendar date, counted in days from the first day of the common era (day 1).
#[derive(Debug, Clone, Copy, PartialEq, Eq, Structural, Hash)]
pub struct DateValue {
    pub days_from_ce: i32,
}

/// A time of day: seconds since midnight and the nanoseconds past them.
#[derive(Debug, Clone, Copy, PartialEq, Eq, Structural, Hash)]
pub struct TimeValue {
    pub secs: u32,
    pub nanos: u32,
}

/// A value at run time.
///
/// A float is held as the bit pattern of its IEEE-754 double; dates and times are held as
/// the counts above.
#[derive(Debug, Clone, PartialEq, Eq, Hash)]
pub enum SqlValue {
    Null,
    Int(i64),
    Float(u64),
    Text(String),
    Bool(bool),
    Bytes(Vec<u8>),
    Timestamp(TimestampValue),
    Date(DateValue),
    Time(TimeValue),
    Enum { type_label: String, value: String },
    Custom { type_label: String, value: String },
}

/// The text that LIKE matches for a value: text, or the value of an enum or custom value.
pub open spec fn like_text(v: SqlValue) -> Option<Seq<char>> {
    match v {
        SqlValue::Text(s) => Some(s@),
        SqlValue::Enum { value, .. } => Some(value@),
        SqlValue::Custom { value, .. } => Some(value@),
        _ => None,
    }
}

/// Characters that have a meaning in a regular expression and are escaped when they occur
/// in a LIKE pattern.
pub open spec fn regex_special(c: char) -> bool {
    c == '\\' || c == '.' || c == '+' || c == '*' || c == '?' || c == '(' || c == ')' || c == '|'
        || c == '[' || c == ']' || c == '{' || c == '}' || c == '^' || c == '$'
}

/// The regular expression for one character of a LIKE pattern: `%` matches any run of
/// characters, `_` any one character, and every other character itself.
pub open spec fn like_char_regex(c: char) -> Seq<char> {
    if c == '%' {
        seq!['.', '*']
    } else if c == '_' {
        seq!['.']
    } else if regex_special(c) {
        seq!['\\', c]
    } else {
        seq![c]
    }
}

pub open spec fn like_body_regex(p: Seq<char>) -> Seq<char>
    decreases p.len(),
{
    if p.len() == 0 {
        Seq::empty()
    } else {
        like_body_regex(p.drop_last()) + like_char_regex(p.last())
    }
}

/// The regular expression, anchored at both ends, that a LIKE pattern stands for.
pub open spec fn like_regex(p: Seq<char>) -> Seq<char> {
    seq!['^'] + like_body_regex(p) + seq!['$']
}

/// The regular expression of a LIKE pattern is built one pattern character at a time:
/// the empty pattern gives `^$`; appending a character puts, just before the closing `$`,
/// `.*` for `%`, `.` for `_`, a backslash and the character for each character the regex
/// syntax reserves (`\ . + * ? ( ) | [ ] { } ^ $`), and the character itself otherwise. So
/// every character but `%` and `_` stands for itself alone.
pub proof fn lemma_like_regex_by_character(p: Seq<char>, c: char)
    ensures
        like_regex(Seq::<char>::empty()) == seq!['^', '$'],
        like_regex(p.push(c)) == like_regex(p).drop_last() + (if c == '%' {
            seq!['.', '*']
        } else if c == '_' {
            seq!['.']
        } else if c == '?' || c == '*' || c == '+' || c == '.' || c == '\\' || c == '(' || c
            == ')' || c == '|' || c == '[' || c == ']' || c == '{' || c == '}' || c == '^' || c
            == '$' {
            seq!['\\', c]
        } else {
            seq![c]
        }) + seq!['$'],
{
    assert(like_regex(Seq::<char>::empty()) =~= seq!['^', '$']);
    assert(p.push(c).drop_last() =~= p);
    assert(like_regex(p).drop_last() =~= seq!['^'] + like_body_regex(p));
    assert(like_regex(p.push(c)) =~= seq!['^'] + like_body_regex(p) + like_char_regex(c) + seq!['$']);
}

/// A LIKE pattern made of characters that neither LIKE nor the regex syntax reserve is
/// matched as the literal text: its regular expression is the pattern itself between `^`
/// and `$`.
pub proof fn lemma_like_plain_pattern(p: Seq<char>)
    requires
        forall|i: int|
            0 <= i < p.len() ==> {
                let c = #[trigger] p[i];
                !(c == '%' || c == '_' || c == '?' || c == '*' || c == '+' || c == '.' || c == '\\'
                    || c == '(' || c == ')' || c == '|' || c == '[' || c == ']' || c == '{' || c
                    == '}' || c == '^' || c == '$')
            },
    ensures
        like_regex(p) == seq!['^'] + p + seq!['$'],
    decreases p.len(),
{
    if p.len() == 0 {
        lemma_like_regex_by_character(p, 'a');
    } else {
        let q = p.drop_last();
        assert forall|i: int| 0 <= i < q.len() implies {
            let c = #[trigger] q[i];
            !(c == '%' || c == '_' || c == '?' || c == '*' || c == '+' || c == '.' || c == '\\'
                || c == '(' || c == ')' || c == '|' || c == '[' || c == ']' || c == '{' || c == '}'
                || c == '^' || c == '$')
        } by {
            assert(q[i] == p[i]);
        }
        lemma_like_plain_pattern(q);
        lemma_like_regex_by_character(q, p.last());
        assert(q.push(p.last()) =~= p);
        assert(like_regex(q).drop_last() =~= seq!['^'] + q);
        assert(like_regex(p) =~= seq!['^'] + p + seq!['$']);
    }
}

/// Every value matches the type of its own kind and no type of another kind: NULL matches
/// every type, an enum value matches an enum type exactly when the names agree and the
/// value is one of its variants, and a custom value matches a custom type of its label.
pub proof fn lemma_values_match_their_own_type(v: SqlValue, t: SqlType)
    ensures
        v is Null ==> spec_matches_type(v, t),
        v is Int ==> (spec_matches_type(v, t) <==> t is Int),
        v is Float ==> (spec_matches_type(v, t) <==> t is Float),
        v is Text ==> (spec_matches_type(v, t) <==> t is Text),
        v is Bool ==> (spec_matches_type(v, t) <==> t is Bool),
        v is Timestamp ==> (spec_matches_type(v, t) <==> t is Timestamp),
        v is Date ==> (spec_matches_type(v, t) <==> t is Date),
        v is Time ==> (spec_matches_type(v, t) <==> t is Time),
        v is Bytes ==> (spec_matches_type(v, t) <==> t is Bytes),
        v is Enum && !(t is Enum) ==> !spec_matches_type(v, t),
        v is Custom && !(t is Custom) ==> !spec_matches_type(v, t),
        v matches SqlValue::Enum { type_label, value } ==> (t matches SqlType::Enum {
            name,
            variants,
        } ==> (spec_matches_type(v, t) <==> (type_label@ == name@ && exists|i: int|
            0 <= i < variants@.len() && (#[trigger] variants@[i])@ == value@))),
        v matches SqlValue::Custom { type_label, .. } ==> (t matches SqlType::Custom(n) ==> (
        spec_matches_type(v, t) <==> type_label@ == n@)),
{
}

/// Whether the `regex` crate accepts a pattern (`Regex::new` returns `Ok`).
pub uninterp spec fn regex_compiles(pattern: Seq<char>) -> bool;

/// Whether the regular expression of `pattern` matches somewhere in `text`
/// (`Regex::is_match`).
pub uninterp spec fn regex_finds(pattern: Seq<char>, text: Seq<char>) -> bool;

#[verifier::external_type_specification]
#[verifier::external_body]
pub struct ExRegex(regex::Regex);

#[verifier::external_type_specification]
#[verifier::external_body]
pub struct ExRegexError(regex::Error);

/// A compiled regular expression together with the pattern it was compiled from; only
/// `compile_regex` builds one.
pub struct CompiledRegex {
    source: String,
    re: regex::Regex,
}

impl CompiledRegex {
    pub closed spec fn source(&self) -> Seq<char> {
        self.source@
    }
}

/// Calls `regex::Regex::new`. Whether it succeeds depends on the pattern alone; on success
/// the result remembers the pattern.
#[verifier::external_body]
fn compile_regex(pattern: &str) -> (r: Result<CompiledRegex, regex::Error>)
    ensures
        r is Ok <==> regex_compiles(pattern@),
        r matches Ok(c) ==> c.source() == pattern@,
{
    match regex::Regex::new(pattern) {
        Ok(re) => Ok(CompiledRegex { source: pattern.to_string(), re }),
        Err(e) => Err(e),
    }
}

/// Calls `regex::Regex::is_match` on the compiled pattern.
#[verifier::external_body]
fn regex_is_match(re: &CompiledRegex, text: &str) -> (r: bool)
    ensures
        r == regex_finds(re.source(), text@),
{
    re.re.is_match(text)
}

/// The anchored regular expression of a LIKE pattern.
pub fn like_pattern_regex(pat: &str) -> (r: String)
    ensures
        r@ == like_regex(pat@),
{
    let mut out = String::new();
    push_char(&mut out, '^');
    let n = pat.unicode_len();
    let mut i: usize = 0;
    while i < n
        invariant
            n == pat@.len(),
            i <= n,
            out@ == seq!['^'] + like_body_regex(pat@.subrange(0, i as int)),
        decreases n - i,
    {
        let ch = pat.get_char(i);
        proof {
            let p = pat@.subrange(0, i + 1);
            assert(p.drop_last() =~= pat@.subrange(0, i as int));
            assert(p.last() == ch);
        }
        if ch == '%' {
            push_char(&mut out, '.');
            push_char(&mut out, '*');
        } else if ch == '_' {
            push_char(&mut out, '.');
        } else if ch == '\\' || ch == '.' || ch == '+' || ch == '*' || ch == '?' || ch == '('
            || ch == ')' || ch == '|' || ch == '[' || ch == ']' || ch == '{' || ch == '}' || ch
            == '^' || ch == '$' {
            push_char(&mut out, '\\');
            push_char(&mut out, ch);
        } else {
            push_char(&mut out, ch);
        }
        assert(out@ =~= seq!['^'] + like_body_regex(pat@.subrange(0, i + 1)));
        i = i + 1;
    }
    push_char(&mut out, '$');
    assert(pat@.subrange(0, n as int) =~= pat@);
    assert(out@ =~= like_regex(pat@));
    out
}

/// How the error for a LIKE pattern whose regular expression does not compile begins;
/// the rest is the regular expression library's account of the problem.
pub open spec fn bad_pattern_prefix(p: Seq<char>) -> Seq<char> {
    "Pola LIKE '"@ + p + "' tidak valid: "@
}

/// The message of the error for a value without a truth value.
pub open spec fn truth_error_message(v: SqlValue) -> Seq<char> {
    "Operasi logika membutuhkan tipe BOOLEAN, tetapi mendapatkan "@ + spec_variant_name(v)@
}

/// Whether `r` is the error for a value without a truth value.
pub open spec fn is_truth_error<T>(r: Result<T, DomainError>, v: SqlValue) -> bool {
    r matches Err(DomainError::EvaluationError(m)) && m@ == truth_error_message(v)
}

/// What `to_sql_bool` gives for a value: booleans map to true and false, NULL to unknown,
/// anything else has no truth value.
pub open spec fn spec_truth(v: SqlValue) -> Option<SqlBool> {
    match v {
        SqlValue::Bool(b) => Some(spec_from_bool(b)),
        SqlValue::Null => Some(SqlBool::Unknown),
        _ => None,
    }
}

/// Whether a value may be stored in a column of a type.
pub open spec fn spec_matches_type(v: SqlValue, t: SqlType) -> bool {
    match (v, t) {
        (SqlValue::Null, _) => true,
        (SqlValue::Int(_), SqlType::Int) => true,
        (SqlValue::Float(_), SqlType::Float) => true,
        (SqlValue::Text(_), SqlType::Text) => true,
        (SqlValue::Bool(_), SqlType::Bool) => true,
        (SqlValue::Timestamp(_), SqlType::Timestamp) => true,
        (SqlValue::Date(_), SqlType::Date) => true,
        (SqlValue::Time(_), SqlType::Time) => true,
        (SqlValue::Bytes(_), SqlType::Bytes) => true,
        (SqlValue::Enum { type_label, value }, SqlType::Enum { name, variants }) => type_label@
            == name@ && exists|i: int| 0 <= i < variants@.len() && (#[trigger] variants@[i])@ == value@,
        (SqlValue::Custom { type_label, .. }, SqlType::Custom(expected)) => type_label@ == expected@,
        _ => false,
    }
}

/// The name of a value's variant, as conversion errors report it.
pub open spec fn spec_variant_name(v: SqlValue) -> &'static str {
    match v {
        SqlValue::Null => "Null",
        SqlValue::Int(_) => "Int",
        SqlValue::Float(_) => "Float",
        SqlValue::Text(_) => "Text",
        SqlValue::Bool(_) => "Bool",
        SqlValue::Timestamp(_) => "Timestamp",
        SqlValue::Date(_) => "Date",
        SqlValue::Time(_) => "Time",
        SqlValue::Bytes(_) => "Bytes",
        SqlValue::Enum { .. } => "Enum",
        SqlValue::Custom { .. } => "Custom",
    }
}

/// Two values that are the same, byte strings compared by their bytes.
pub open spec fn same_value(a: SqlValue, b: SqlValue) -> bool {
    match (a, b) {
        (SqlValue::Bytes(x), SqlValue::Bytes(y)) => x@ == y@,
        _ => a == b,
    }
}

/// Whether the bit pattern is that of a NaN: every exponent bit set and a mantissa that is
/// not zero.
pub open spec fn is_nan_bits(b: u64) -> bool {
    b & 0x7ff0_0000_0000_0000u64 == 0x7ff0_0000_0000_0000u64 && b & 0x000f_ffff_ffff_ffffu64 != 0
}

/// Whether two doubles, given by their bit patterns, are equal as `OrderedFloat` compares
/// them: every NaN equals every NaN, and other doubles are equal when their values are,
/// which is when their bit patterns are, or when both are zeros of either sign.
pub open spec fn float_bits_eq(x: u64, y: u64) -> bool {
    if is_nan_bits(x) || is_nan_bits(y) {
        is_nan_bits(x) && is_nan_bits(y)
    } else {
        x == y || (is_zero_bits(x) && is_zero_bits(y))
    }
}

fn float_bits_equal(x: u64, y: u64) -> (r: bool)
    ensures
        r == float_bits_eq(x, y),
{
    let nan_x = x & 0x7ff0_0000_0000_0000u64 == 0x7ff0_0000_0000_0000u64
        && x & 0x000f_ffff_ffff_ffffu64 != 0;
    let nan_y = y & 0x7ff0_0000_0000_0000u64 == 0x7ff0_0000_0000_0000u64
        && y & 0x000f_ffff_ffff_ffffu64 != 0;
    if nan_x || nan_y {
        nan_x && nan_y
    } else {
        x == y || (x & 0x7fff_ffff_ffff_ffffu64 == 0 && y & 0x7fff_ffff_ffff_ffffu64 == 0)
    }
}

/// Whether two values are equal as `==` compares them: strings and byte strings by their
/// contents, floats as `OrderedFloat` does, everything else field by field.
pub open spec fn value_eq(a: SqlValue, b: SqlValue) -> bool {
    match (a, b) {
        (SqlValue::Float(x), SqlValue::Float(y)) => float_bits_eq(x, y),
        (SqlValue::Text(x), SqlValue::Text(y)) => x@ == y@,
        (SqlValue::Bytes(x), SqlValue::Bytes(y)) => x@ == y@,
        (
            SqlValue::Enum { type_label: t1, value: v1 },
            SqlValue::Enum { type_label: t2, value: v2 },
        ) => t1@ == t2@ && v1@ == v2@,
        (
            SqlValue::Custom { type_label: t1, value: v1 },
            SqlValue::Custom { type_label: t2, value: v2 },
        ) => t1@ == t2@ && v1@ == v2@,
        (SqlValue::Text(_), _) | (SqlValue::Bytes(_), _) | (SqlValue::Enum { .. }, _) | (
            SqlValue::Custom { .. },
            _,
        ) => false,
        _ => a == b,
    }
}

fn bytes_equal(a: &Vec<u8>, b: &Vec<u8>) -> (r: bool)
    ensures
        r == (a@ == b@),
{
    if a.len() != b.len() {
        return false;
    }
    let mut i: usize = 0;
    while i < a.len()
        invariant
            a@.len() == b@.len(),
            i <= a@.len(),
            forall|j: int| 0 <= j < i ==> a@[j] == b@[j],
        decreases a@.len() - i,
    {
        if a[i] != b[i] {
            return false;
        }
        i = i + 1;
    }
    assert(a@ =~= b@);
    true
}

impl SqlValue {
    /// A copy of the value.
    pub fn copy_value(&self) -> (r: Self)
        ensures
            same_value(r, *self),
    {
        match self {
            SqlValue::Null => SqlValue::Null,
            SqlValue::Int(n) => SqlValue::Int(*n),
            SqlValue::Float(b) => SqlValue::Float(*b),
            SqlValue::Text(s) => SqlValue::Text(s.clone()),
            SqlValue::Bool(b) => SqlValue::Bool(*b),
            SqlValue::Bytes(b) => {
                let c = b.clone();
                assert(c@ =~= b@);
                SqlValue::Bytes(c)
            },
            SqlValue::Timestamp(t) => SqlValue::Timestamp(*t),
            SqlValue::Date(d) => SqlValue::Date(*d),
            SqlValue::Time(t) => SqlValue::Time(*t),
            SqlValue::Enum { type_label, value } => SqlValue::Enum {
                type_label: type_label.clone(),
                value: value.clone(),
            },
            SqlValue::Custom { type_label, value } => SqlValue::Custom {
                type_label: type_label.clone(),
                value: value.clone(),
            },
        }
    }

    /// Whether two values are equal, strings and byte strings by their contents.
    pub fn equals(&self, other: &Self) -> (r: bool)
        ensures
            r == value_eq(*self, *other),
    {
        match (self, other) {
            (SqlValue::Null, SqlValue::Null) => true,
            (SqlValue::Int(x), SqlValue::Int(y)) => *x == *y,
            (SqlValue::Float(x), SqlValue::Float(y)) => float_bits_equal(*x, *y),
            (SqlValue::Text(x), SqlValue::Text(y)) => *x == *y,
            (SqlValue::Bool(x), SqlValue::Bool(y)) => *x == *y,
            (SqlValue::Bytes(x), SqlValue::Bytes(y)) => bytes_equal(x, y),
            (SqlValue::Timestamp(x), SqlValue::Timestamp(y)) => *x == *y,
            (SqlValue::Date(x), SqlValue::Date(y)) => *x == *y,
            (SqlValue::Time(x), SqlValue::Time(y)) => *x == *y,
            (
                SqlValue::Enum { type_label: t1, value: v1 },
                SqlValue::Enum { type_label: t2, value: v2 },
            ) => *t1 == *t2 && *v1 == *v2,
            (
                SqlValue::Custom { type_label: t1, value: v1 },
                SqlValue::Custom { type_label: t2, value: v2 },
            ) => *t1 == *t2 && *v1 == *v2,
            _ => false,
        }
    }

    /// Whether the value is NULL.
    pub fn is_null(&self) -> (r: bool)
        ensures
            r == (*self is Null),
    {
        match self {
            SqlValue::Null => true,
            _ => false,
        }
    }

    /// The name of the value's variant.
    pub fn variant_name(&self) -> (r: &'static str)
        ensures
            r == spec_variant_name(*self),
    {
        match self {
            SqlValue::Null => "Null",
            SqlValue::Int(_) => "Int",
            SqlValue::Float(_) => "Float",
            SqlValue::Text(_) => "Text",
            SqlValue::Bool(_) => "Bool",
            SqlValue::Timestamp(_) => "Timestamp",
            SqlValue::Date(_) => "Date",
            SqlValue::Time(_) => "Time",
            SqlValue::Bytes(_) => "Bytes",
            SqlValue::Enum { .. } => "Enum",
            SqlValue::Custom { .. } => "Custom",
        }
    }

    /// The truth value of a value for AND, OR and NOT: a boolean or NULL; any other value is
    /// an evaluation error.
    pub fn to_sql_bool(&self) -> (r: Result<SqlBool, DomainError>)
        ensures
            match spec_truth(*self) {
                Some(b) => r == Ok::<SqlBool, DomainError>(b),
                None => is_truth_error(r, *self),
            },
    {
        match self {
            SqlValue::Bool(b) => Ok(SqlBool::from(*b)),
            SqlValue::Null => Ok(SqlBool::Unknown),
            other => {
                let mut msg = String::from_str(
                    "Operasi logika membutuhkan tipe BOOLEAN, tetapi mendapatkan ",
                );
                msg.append(other.variant_name());
                Err(DomainError::EvaluationError(msg))
            },
        }
    }

    /// AND of two values that have truth values.
    pub fn and(&self, other: &Self) -> (r: Result<SqlBool, DomainError>)
        ensures
            match (spec_truth(*self), spec_truth(*other)) {
                (Some(a), Some(b)) => r == Ok::<SqlBool, DomainError>(spec_and(a, b)),
                (None, _) => is_truth_error(r, *self),
                (Some(_), None) => is_truth_error(r, *other),
            },
    {
        let l = self.to_sql_bool()?;
        let r = other.to_sql_bool()?;
        Ok(l.and(r))
    }

    /// OR of two values that have truth values.
    pub fn or(&self, other: &Self) -> (r: Result<SqlBool, DomainError>)
        ensures
            match (spec_truth(*self), spec_truth(*other)) {
                (Some(a), Some(b)) => r == Ok::<SqlBool, DomainError>(spec_or(a, b)),
                (None, _) => is_truth_error(r, *self),
                (Some(_), None) => is_truth_error(r, *other),
            },
    {
        let l = self.to_sql_bool()?;
        let r = other.to_sql_bool()?;
        Ok(l.or(r))
    }

    /// Whether the value may be stored in a column of the given type: NULL fits every type,
    /// an enum value must name the type and one of its variants, a custom value must name
    /// the type.
    #[verifier::loop_isolation(false)]
    pub fn matches_type(&self, sql_type: &SqlType) -> (r: bool)
        ensures
            r == spec_matches_type(*self, *sql_type),
    {
        match (self, sql_type) {
            (SqlValue::Null, _) => true,
            (SqlValue::Int(_), SqlType::Int) => true,
            (SqlValue::Float(_), SqlType::Float) => true,
            (SqlValue::Text(_), SqlType::Text) => true,
            (SqlValue::Bool(_), SqlType::Bool) => true,
            (SqlValue::Timestamp(_), SqlType::Timestamp) => true,
            (SqlValue::Date(_), SqlType::Date) => true,
            (SqlValue::Time(_), SqlType::Time) => true,
            (SqlValue::Bytes(_), SqlType::Bytes) => true,
            (SqlValue::Enum { type_label, value }, SqlType::Enum { name, variants }) => {
                if !(*type_label == *name) {
                    return false;
                }
                let mut i: usize = 0;
                while i < variants.len()
                    invariant
                        i <= variants@.len(),
                        forall|j: int| 0 <= j < i ==> (#[trigger] variants@[j])@ != value@,
                    decreases variants@.len() - i,
                {
                    if variants[i] == *value {
                        assert((variants@[i as int])@ == value@);
                        return true;
                    }
                    i = i + 1;
                }
                false
            },
            (SqlValue::Custom { type_label, .. }, SqlType::Custom(expected_type)) => {
                *type_label == *expected_type
            },
            _ => false,
        }
    }

    fn as_str_for_like(&self) -> (r: Option<&str>)
        ensures
            match like_text(*self) {
                Some(t) => r matches Some(s) && s@ == t,
                None => r is None,
            },
    {
        match self {
            SqlValue::Text(s) => Some(s.as_str()),
            SqlValue::Enum { value, .. } => Some(value.as_str()),
            SqlValue::Custom { value, .. } => Some(value.as_str()),
            _ => None,
        }
    }

    /// SQL LIKE under three-valued logic: unknown when either side is NULL; otherwise the
    /// text of the left side is matched against the pattern, where `%` stands for any run of
    /// characters and `_` for one character. Both sides must be text, enum or custom values.
    pub fn like(&self, pattern: &Self) -> (r: Result<SqlBool, DomainError>)
        ensures
            (*self is Null || *pattern is Null) ==> r == Ok::<SqlBool, DomainError>(SqlBool::Unknown),
            !(*self is Null || *pattern is Null) ==> match (like_text(*self), like_text(*pattern)) {
                (Some(t), Some(p)) => if regex_compiles(like_regex(p)) {
                    r == Ok::<SqlBool, DomainError>(spec_from_bool(regex_finds(like_regex(p), t)))
                } else {
                    r matches Err(DomainError::EvaluationError(m)) && m@.len() >= bad_pattern_prefix(
                        p,
                    ).len() && m@.take(bad_pattern_prefix(p).len() as int) == bad_pattern_prefix(p)
                },
                _ => r matches Err(DomainError::EvaluationError(m)) && m@
                    == "Operan untuk operator LIKE harus bertipe Text, Enum, atau Custom"@,
            },
    {
        if self.is_null() || pattern.is_null() {
            return Ok(SqlBool::Unknown);
        }
        match (self.as_str_for_like(), pattern.as_str_for_like()) {
            (Some(text), Some(pat)) => {
                let regex_str = like_pattern_regex(pat);
                match compile_regex(regex_str.as_str()) {
                    Ok(re) => Ok(SqlBool::from(regex_is_match(&re, text))),
                    Err(e) => {
                        let mut msg = String::from_str("Pola LIKE '");
                        msg.append(pat);
                        msg.append("' tidak valid: ");
                        msg.append(e.to_string().as_str());
                        Err(DomainError::EvaluationError(msg))
                    },
                }
            },
            _ => Err(
                DomainError::EvaluationError(
                    String::from_str("Operan untuk operator LIKE harus bertipe Text, Enum, atau Custom"),
                ),
            ),
        }
    }
}

// ---------------------------------------------------------------------------
// Conversions into values
// ---------------------------------------------------------------------------

/// The value of a truth value: true and false become booleans, unknown becomes NULL.
pub open spec fn spec_value_of_bool(sb: SqlBool) -> SqlValue {
    match sb {
        SqlBool::True => SqlValue::Bool(true),
        SqlBool::False => SqlValue::Bool(false),
        SqlBool::Unknown => SqlValue::Null,
    }
}

impl<'a> From<&'a SqlBool> for SqlValue {
    fn from(sb: &'a SqlBool) -> (r: Self) {
        match sb {
            SqlBool::True => SqlValue::Bool(true),
            SqlBool::False => SqlValue::Bool(false),
            SqlBool::Unknown => SqlValue::Null,
        }
    }
}

impl<'a> vstd::std_specs::convert::FromSpecImpl<&'a SqlBool> for SqlValue {
    open spec fn obeys_from_spec() -> bool {
        true
    }

    open spec fn from_spec(sb: &'a SqlBool) -> Self {
        spec_value_of_bool(*sb)
    }
}

impl From<SqlBool> for SqlValue {
    fn from(sb: SqlBool) -> (r: Self) {
        SqlValue::from(&sb)
    }
}

impl vstd::std_specs::convert::FromSpecImpl<SqlBool> for SqlValue {
    open spec fn obeys_from_spec() -> bool {
        true
    }

    open spec fn from_spec(sb: SqlBool) -> Self {
        spec_value_of_bool(sb)
    }
}

impl From<i64> for SqlValue {
    fn from(v: i64) -> (r: Self) {
        SqlValue::Int(v)
    }
}

impl vstd::std_specs::convert::FromSpecImpl<i64> for SqlValue {
    open spec fn obeys_from_spec() -> bool {
        true
    }

    open spec fn from_spec(v: i64) -> Self {
        SqlValue::Int(v)
    }
}

impl From<i32> for SqlValue {
    fn from(v: i32) -> (r: Self) {
        SqlValue::Int(v as i64)
    }
}

impl vstd::std_specs::convert::FromSpecImpl<i32> for SqlValue {
    open spec fn obeys_from_spec() -> bool {
        true
    }

    open spec fn from_spec(v: i32) -> Self {
        SqlValue::Int(v as i64)
    }
}

impl From<usize> for SqlValue {
    fn from(v: usize) -> (r: Self) {
        SqlValue::Int(v as i64)
    }
}

impl vstd::std_specs::convert::FromSpecImpl<usize> for SqlValue {
    open spec fn obeys_from_spec() -> bool {
        true
    }

    open spec fn from_spec(v: usize) -> Self {
        SqlValue::Int(v as i64)
    }
}

impl From<String> for SqlValue {
    fn from(v: String) -> (r: Self) {
        SqlValue::Text(v)
    }
}

impl vstd::std_specs::convert::FromSpecImpl<String> for SqlValue {
    open spec fn obeys_from_spec() -> bool {
        true
    }

    open spec fn from_spec(v: String) -> Self {
        SqlValue::Text(v)
    }
}

impl From<bool> for SqlValue {
    fn from(v: bool) -> (r: Self) {
        SqlValue::Bool(v)
    }
}

impl vstd::std_specs::convert::FromSpecImpl<bool> for SqlValue {
    open spec fn obeys_from_spec() -> bool {
        true
    }

    open spec fn from_spec(v: bool) -> Self {
        SqlValue::Bool(v)
    }
}

impl From<Vec<u8>> for SqlValue {
    fn from(v: Vec<u8>) -> (r: Self) {
        SqlValue::Bytes(v)
    }
}

impl vstd::std_specs::convert::FromSpecImpl<Vec<u8>> for SqlValue {
    open spec fn obeys_from_spec() -> bool {
        true
    }

    open spec fn from_spec(v: Vec<u8>) -> Self {
        SqlValue::Bytes(v)
    }
}

impl<'a> From<&'a [u8]> for SqlValue {
    fn from(v: &'a [u8]) -> (r: Self)
        ensures
            r matches SqlValue::Bytes(b) && b@ == v@,
    {
        let mut out: Vec<u8> = Vec::with_capacity(v.len());
        let mut i: usize = 0;
        while i < v.len()
            invariant
                i <= v@.len(),
                out@ == v@.take(i as int),
            decreases v@.len() - i,
        {
            out.push(v[i]);
            assert(out@ =~= v@.take(i + 1));
            i = i + 1;
        }
        assert(v@.take(v@.len() as int) =~= v@);
        SqlValue::Bytes(out)
    }
}

impl<'a> vstd::std_specs::convert::FromSpecImpl<&'a [u8]> for SqlValue {
    /// The result is a byte value with the same bytes (see the `ensures` of `from`); a spec
    /// function cannot build that vector, so no `from_spec` is claimed.
    open spec fn obeys_from_spec() -> bool {
        false
    }

    open spec fn from_spec(v: &'a [u8]) -> Self {
        vstd::pervasive::arbitrary()
    }
}

impl<'a> From<&'a str> for SqlValue {
    fn from(v: &'a str) -> (r: Self)
        ensures
            r matches SqlValue::Text(s) && s@ == v@,
    {
        SqlValue::Text(v.to_owned())
    }
}

impl<'a> vstd::std_specs::convert::FromSpecImpl<&'a str> for SqlValue {
    /// The result is a text value with the same characters (see the `ensures` of `from`); a
    /// spec function cannot build that string, so no `from_spec` is claimed.
    open spec fn obeys_from_spec() -> bool {
        false
    }

    open spec fn from_spec(v: &'a str) -> Self {
        vstd::pervasive::arbitrary()
    }
}

} // verus!
