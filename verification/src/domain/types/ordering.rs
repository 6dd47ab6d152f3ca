use std::ops::Not;
use vstd::prelude::*;

use crate::domain::types::sql_type::{spec_from_bool, spec_not, SqlBool};
use crate::domain::types::sql_value::{DateValue, SqlValue, TimeValue, TimestampValue};

verus! {

/// The outcome of comparing two values.
#[derive(Debug, Clone, Copy, PartialEq, Eq, Structural)]
pub enum ValueOrder {
    Less,
    Equal,
    Greater,
}

/// The order of two integers.
pub open spec fn order_int(a: int, b: int) -> ValueOrder {
    if a < b {
        ValueOrder::Less
    } else if a == b {
        ValueOrder::Equal
    } else {
        ValueOrder::Greater
    }
}

/// Lexicographic order: element by element, a proper prefix first.
pub open spec fn lex_order(a: Seq<int>, b: Seq<int>) -> ValueOrder
    decreases a.len(),
{
    if a.len() == 0 {
        if b.len() == 0 {
            ValueOrder::Equal
        } else {
            ValueOrder::Less
        }
    } else if b.len() == 0 {
        ValueOrder::Greater
    } else if a[0] != b[0] {
        order_int(a[0], b[0])
    } else {
        lex_order(a.drop_first(), b.drop_first())
    }
}

/// The first order unless it is `Equal`, then the second: the order of pairs.
pub open spec fn then_order(first: ValueOrder, second: ValueOrder) -> ValueOrder {
    if first == ValueOrder::Equal {
        second
    } else {
        first
    }
}

/// The order with its two sides swapped.
pub open spec fn reverse_order(o: ValueOrder) -> ValueOrder {
    match o {
        ValueOrder::Less => ValueOrder::Greater,
        ValueOrder::Equal => ValueOrder::Equal,
        ValueOrder::Greater => ValueOrder::Less,
    }
}

/// The code points of a string, in order; strings are ordered by them.
pub open spec fn char_codes(s: Seq<char>) -> Seq<int> {
    s.map_values(|c: char| c as int)
}

/// The bytes of a byte string as integers.
pub open spec fn byte_codes(s: Seq<u8>) -> Seq<int> {
    s.map_values(|b: u8| b as int)
}

/// The position of a value's variant in the order of values of different kinds: NULL
/// first, then numbers, text, booleans, bytes, instants, dates, times, enum and custom
/// values.
pub open spec fn variant_rank(v: SqlValue) -> int {
    match v {
        SqlValue::Null => 0,
        SqlValue::Int(_) => 1,
        SqlValue::Float(_) => 2,
        SqlValue::Text(_) => 3,
        SqlValue::Bool(_) => 4,
        SqlValue::Bytes(_) => 5,
        SqlValue::Timestamp(_) => 6,
        SqlValue::Date(_) => 7,
        SqlValue::Time(_) => 8,
        SqlValue::Enum { .. } => 9,
        SqlValue::Custom { .. } => 10,
    }
}

pub open spec fn bool_rank(b: bool) -> int {
    if b {
        1
    } else {
        0
    }
}

pub open spec fn timestamp_order(a: TimestampValue, b: TimestampValue) -> ValueOrder {
    then_order(order_int(a.secs as int, b.secs as int), order_int(a.nanos as int, b.nanos as int))
}

pub open spec fn date_order(a: DateValue, b: DateValue) -> ValueOrder {
    order_int(a.days_from_ce as int, b.days_from_ce as int)
}

pub open spec fn time_order(a: TimeValue, b: TimeValue) -> ValueOrder {
    then_order(order_int(a.secs as int, b.secs as int), order_int(a.nanos as int, b.nanos as int))
}

pub open spec fn text_order(a: Seq<char>, b: Seq<char>) -> ValueOrder {
    lex_order(char_codes(a), char_codes(b))
}

/// Whether the order of two values involves a float: a float with a float or an integer.
pub open spec fn needs_float_order(a: SqlValue, b: SqlValue) -> bool {
    ||| (a is Float && (b is Float || b is Int))
    ||| (a is Int && b is Float)
}

/// The order of two values: NULL before everything, numbers by value, strings, byte
/// strings and labels lexicographically, instants, dates and times chronologically,
/// values of different kinds by the rank of their kind. Where a float takes part the
/// order is that of the floats, which this crate does not compute; such a pair is
/// ordered by `compare`'s caller.
pub open spec fn value_order(a: SqlValue, b: SqlValue) -> ValueOrder
    recommends
        !needs_float_order(a, b),
{
    match (a, b) {
        (SqlValue::Null, SqlValue::Null) => ValueOrder::Equal,
        (SqlValue::Null, _) => ValueOrder::Less,
        (_, SqlValue::Null) => ValueOrder::Greater,
        (SqlValue::Int(x), SqlValue::Int(y)) => order_int(x as int, y as int),
        (SqlValue::Text(x), SqlValue::Text(y)) => text_order(x@, y@),
        (SqlValue::Bool(x), SqlValue::Bool(y)) => order_int(bool_rank(x), bool_rank(y)),
        (SqlValue::Bytes(x), SqlValue::Bytes(y)) => lex_order(byte_codes(x@), byte_codes(y@)),
        (SqlValue::Timestamp(x), SqlValue::Timestamp(y)) => timestamp_order(x, y),
        (SqlValue::Date(x), SqlValue::Date(y)) => date_order(x, y),
        (SqlValue::Time(x), SqlValue::Time(y)) => time_order(x, y),
        (
            SqlValue::Enum { type_label: t1, value: v1 },
            SqlValue::Enum { type_label: t2, value: v2 },
        ) => then_order(text_order(t1@, t2@), text_order(v1@, v2@)),
        (
            SqlValue::Custom { type_label: t1, value: v1 },
            SqlValue::Custom { type_label: t2, value: v2 },
        ) => then_order(text_order(t1@, t2@), text_order(v1@, v2@)),
        _ => order_int(variant_rank(a), variant_rank(b)),
    }
}

/// One side of a comparison that involves a float: the bit pattern of a float, or an
/// integer that is compared as a float.
#[derive(Debug, Clone, Copy, PartialEq, Eq, Structural)]
pub enum FloatOperand {
    Bits(u64),
    Int(i64),
}

pub open spec fn float_operand(v: SqlValue) -> FloatOperand {
    match v {
        SqlValue::Int(n) => FloatOperand::Int(n),
        SqlValue::Float(b) => FloatOperand::Bits(b),
        _ => FloatOperand::Int(0),
    }
}

/// What `compare` finds: the order of the two values, or the two float operands whose
/// order decides it.
#[derive(Debug, Clone, Copy, PartialEq, Eq, Structural)]
pub enum Comparison {
    Ordered(ValueOrder),
    Floats(FloatOperand, FloatOperand),
}

/// Whether `order` is the order of `a` and `b`: the value order where no float takes part;
/// any order otherwise, as the floats decide it.
pub open spec fn is_order_of(a: SqlValue, b: SqlValue, order: ValueOrder) -> bool {
    !needs_float_order(a, b) ==> order == value_order(a, b)
}

/// The result of `=` given the order of its operands: unknown when either is NULL.
pub open spec fn spec_eq(a: SqlValue, b: SqlValue, order: ValueOrder) -> SqlBool {
    if a is Null || b is Null {
        SqlBool::Unknown
    } else {
        spec_from_bool(order == ValueOrder::Equal)
    }
}

pub open spec fn spec_gt(a: SqlValue, b: SqlValue, order: ValueOrder) -> SqlBool {
    if a is Null || b is Null {
        SqlBool::Unknown
    } else {
        spec_from_bool(order == ValueOrder::Greater)
    }
}

pub open spec fn spec_lt(a: SqlValue, b: SqlValue, order: ValueOrder) -> SqlBool {
    if a is Null || b is Null {
        SqlBool::Unknown
    } else {
        spec_from_bool(order == ValueOrder::Less)
    }
}

pub open spec fn spec_gteq(a: SqlValue, b: SqlValue, order: ValueOrder) -> SqlBool {
    if a is Null || b is Null {
        SqlBool::Unknown
    } else {
        spec_from_bool(order != ValueOrder::Less)
    }
}

pub open spec fn spec_lteq(a: SqlValue, b: SqlValue, order: ValueOrder) -> SqlBool {
    if a is Null || b is Null {
        SqlBool::Unknown
    } else {
        spec_from_bool(order != ValueOrder::Greater)
    }
}

fn order_u64(a: u64, b: u64) -> (r: ValueOrder)
    ensures
        r == order_int(a as int, b as int),
{
    if a < b {
        ValueOrder::Less
    } else if a == b {
        ValueOrder::Equal
    } else {
        ValueOrder::Greater
    }
}

fn order_i64(a: i64, b: i64) -> (r: ValueOrder)
    ensures
        r == order_int(a as int, b as int),
{
    if a < b {
        ValueOrder::Less
    } else if a == b {
        ValueOrder::Equal
    } else {
        ValueOrder::Greater
    }
}

proof fn lemma_lex_skip(a: Seq<int>, b: Seq<int>, i: int)
    requires
        0 <= i < a.len(),
        i < b.len(),
        a[i] == b[i],
    ensures
        lex_order(a.skip(i), b.skip(i)) == lex_order(a.skip(i + 1), b.skip(i + 1)),
{
    assert(a.skip(i).drop_first() =~= a.skip(i + 1));
    assert(b.skip(i).drop_first() =~= b.skip(i + 1));
}

/// The characters of a string.
fn chars_of(s: &str) -> (r: Vec<char>)
    ensures
        r@ == s@,
{
    let mut out: Vec<char> = Vec::new();
    let n = s.unicode_len();
    let mut i: usize = 0;
    while i < n
        invariant
            n == s@.len(),
            i <= n,
            out@ == s@.subrange(0, i as int),
        decreases n - i,
    {
        out.push(s.get_char(i));
        assert(out@ =~= s@.subrange(0, i + 1));
        i = i + 1;
    }
    assert(s@.subrange(0, n as int) =~= s@);
    out
}

/// Lexicographic order of two strings by code point.
fn order_text(a: &str, b: &str) -> (r: ValueOrder)
    ensures
        r == text_order(a@, b@),
{
    let ca = chars_of(a);
    let cb = chars_of(b);
    let ghost sa = char_codes(a@);
    let ghost sb = char_codes(b@);
    let mut i: usize = 0;
    assert(sa.skip(0) =~= sa);
    assert(sb.skip(0) =~= sb);
    while i < ca.len() && i < cb.len()
        invariant
            ca@ == a@,
            cb@ == b@,
            sa == char_codes(a@),
            sb == char_codes(b@),
            i <= ca.len(),
            i <= cb.len(),
            lex_order(sa, sb) == lex_order(sa.skip(i as int), sb.skip(i as int)),
        decreases ca.len() - i,
    {
        let x = ca[i];
        let y = cb[i];
        if x != y {
            assert(sa.skip(i as int)[0] == x as int);
            assert(sb.skip(i as int)[0] == y as int);
            if x < y {
                return ValueOrder::Less;
            } else {
                return ValueOrder::Greater;
            }
        }
        proof {
            lemma_lex_skip(sa, sb, i as int);
        }
        i = i + 1;
    }
    if i == ca.len() && i == cb.len() {
        ValueOrder::Equal
    } else if i == ca.len() {
        ValueOrder::Less
    } else {
        ValueOrder::Greater
    }
}

/// Lexicographic order of two byte strings.
fn order_bytes(a: &[u8], b: &[u8]) -> (r: ValueOrder)
    ensures
        r == lex_order(byte_codes(a@), byte_codes(b@)),
{
    let ghost sa = byte_codes(a@);
    let ghost sb = byte_codes(b@);
    let mut i: usize = 0;
    assert(sa.skip(0) =~= sa);
    assert(sb.skip(0) =~= sb);
    while i < a.len() && i < b.len()
        invariant
            sa == byte_codes(a@),
            sb == byte_codes(b@),
            i <= a.len(),
            i <= b.len(),
            lex_order(sa, sb) == lex_order(sa.skip(i as int), sb.skip(i as int)),
        decreases a.len() - i,
    {
        let x = a[i];
        let y = b[i];
        if x != y {
            assert(sa.skip(i as int)[0] == x as int);
            assert(sb.skip(i as int)[0] == y as int);
            if x < y {
                return ValueOrder::Less;
            } else {
                return ValueOrder::Greater;
            }
        }
        proof {
            lemma_lex_skip(sa, sb, i as int);
        }
        i = i + 1;
    }
    if i == a.len() && i == b.len() {
        ValueOrder::Equal
    } else if i == a.len() {
        ValueOrder::Less
    } else {
        ValueOrder::Greater
    }
}

fn variant_index(v: &SqlValue) -> (r: u64)
    ensures
        r as int == variant_rank(*v),
{
    match v {
        SqlValue::Null => 0,
        SqlValue::Int(_) => 1,
        SqlValue::Float(_) => 2,
        SqlValue::Text(_) => 3,
        SqlValue::Bool(_) => 4,
        SqlValue::Bytes(_) => 5,
        SqlValue::Timestamp(_) => 6,
        SqlValue::Date(_) => 7,
        SqlValue::Time(_) => 8,
        SqlValue::Enum { .. } => 9,
        SqlValue::Custom { .. } => 10,
    }
}

fn then(first: ValueOrder, second: ValueOrder) -> (r: ValueOrder)
    ensures
        r == then_order(first, second),
{
    match first {
        ValueOrder::Equal => second,
        _ => first,
    }
}

impl SqlValue {
    /// Compares two values. Where a float takes part (two floats, or a float and an
    /// integer) the result hands back the two operands, whose order as floats decides.
    pub fn compare(&self, other: &Self) -> (r: Comparison)
        ensures
            needs_float_order(*self, *other) ==> r == Comparison::Floats(
                float_operand(*self),
                float_operand(*other),
            ),
            !needs_float_order(*self, *other) ==> r == Comparison::Ordered(
                value_order(*self, *other),
            ),
    {
        match (self, other) {
            (SqlValue::Null, SqlValue::Null) => Comparison::Ordered(ValueOrder::Equal),
            (SqlValue::Null, _) => Comparison::Ordered(ValueOrder::Less),
            (_, SqlValue::Null) => Comparison::Ordered(ValueOrder::Greater),
            (SqlValue::Int(x), SqlValue::Int(y)) => Comparison::Ordered(order_i64(*x, *y)),
            (SqlValue::Float(x), SqlValue::Float(y)) => Comparison::Floats(
                FloatOperand::Bits(*x),
                FloatOperand::Bits(*y),
            ),
            (SqlValue::Int(x), SqlValue::Float(y)) => Comparison::Floats(
                FloatOperand::Int(*x),
                FloatOperand::Bits(*y),
            ),
            (SqlValue::Float(x), SqlValue::Int(y)) => Comparison::Floats(
                FloatOperand::Bits(*x),
                FloatOperand::Int(*y),
            ),
            (SqlValue::Text(x), SqlValue::Text(y)) => Comparison::Ordered(
                order_text(x.as_str(), y.as_str()),
            ),
            (SqlValue::Bool(x), SqlValue::Bool(y)) => {
                let o = if *x == *y {
                    ValueOrder::Equal
                } else if !*x {
                    ValueOrder::Less
                } else {
                    ValueOrder::Greater
                };
                Comparison::Ordered(o)
            },
            (SqlValue::Bytes(x), SqlValue::Bytes(y)) => Comparison::Ordered(
                order_bytes(x.as_slice(), y.as_slice()),
            ),
            (SqlValue::Timestamp(x), SqlValue::Timestamp(y)) => {
                let s = order_i64(x.secs, y.secs);
                let n = order_u64(x.nanos as u64, y.nanos as u64);
                Comparison::Ordered(then(s, n))
            },
            (SqlValue::Date(x), SqlValue::Date(y)) => Comparison::Ordered(
                order_i64(x.days_from_ce as i64, y.days_from_ce as i64),
            ),
            (SqlValue::Time(x), SqlValue::Time(y)) => {
                let s = order_u64(x.secs as u64, y.secs as u64);
                let n = order_u64(x.nanos as u64, y.nanos as u64);
                Comparison::Ordered(then(s, n))
            },
            (
                SqlValue::Enum { type_label: t1, value: v1 },
                SqlValue::Enum { type_label: t2, value: v2 },
            ) => {
                let t = order_text(t1.as_str(), t2.as_str());
                let v = order_text(v1.as_str(), v2.as_str());
                Comparison::Ordered(then(t, v))
            },
            (
                SqlValue::Custom { type_label: t1, value: v1 },
                SqlValue::Custom { type_label: t2, value: v2 },
            ) => {
                let t = order_text(t1.as_str(), t2.as_str());
                let v = order_text(v1.as_str(), v2.as_str());
                Comparison::Ordered(then(t, v))
            },
            _ => Comparison::Ordered(order_u64(variant_index(self), variant_index(other))),
        }
    }

    /// `=` in three-valued logic: unknown when either side is NULL, otherwise whether the
    /// two values are equal in `order`, their order as `compare` and the floats give it.
    pub fn eq(&self, other: &Self, order: ValueOrder) -> (r: SqlBool)
        requires
            is_order_of(*self, *other, order),
        ensures
            r == spec_eq(*self, *other, order),
    {
        if self.is_null() || other.is_null() {
            SqlBool::Unknown
        } else {
            SqlBool::from(order == ValueOrder::Equal)
        }
    }

    /// `<>`: the negation of `=`.
    pub fn noteq(&self, other: &Self, order: ValueOrder) -> (r: SqlBool)
        requires
            is_order_of(*self, *other, order),
        ensures
            r == spec_not(spec_eq(*self, *other, order)),
    {
        self.eq(other, order).not()
    }

    /// `>`: unknown when either side is NULL.
    pub fn gt(&self, other: &Self, order: ValueOrder) -> (r: SqlBool)
        requires
            is_order_of(*self, *other, order),
        ensures
            r == spec_gt(*self, *other, order),
    {
        if self.is_null() || other.is_null() {
            SqlBool::Unknown
        } else {
            SqlBool::from(order == ValueOrder::Greater)
        }
    }

    /// `<`: unknown when either side is NULL.
    pub fn lt(&self, other: &Self, order: ValueOrder) -> (r: SqlBool)
        requires
            is_order_of(*self, *other, order),
        ensures
            r == spec_lt(*self, *other, order),
    {
        if self.is_null() || other.is_null() {
            SqlBool::Unknown
        } else {
            SqlBool::from(order == ValueOrder::Less)
        }
    }

    /// `>=`: unknown when either side is NULL.
    pub fn gteq(&self, other: &Self, order: ValueOrder) -> (r: SqlBool)
        requires
            is_order_of(*self, *other, order),
        ensures
            r == spec_gteq(*self, *other, order),
    {
        if self.is_null() || other.is_null() {
            SqlBool::Unknown
        } else {
            SqlBool::from(order != ValueOrder::Less)
        }
    }

    /// `<=`: unknown when either side is NULL.
    pub fn lteq(&self, other: &Self, order: ValueOrder) -> (r: SqlBool)
        requires
            is_order_of(*self, *other, order),
        ensures
            r == spec_lteq(*self, *other, order),
    {
        if self.is_null() || other.is_null() {
            SqlBool::Unknown
        } else {
            SqlBool::from(order != ValueOrder::Greater)
        }
    }
}

proof fn lemma_lex_reverse(a: Seq<int>, b: Seq<int>)
    ensures
        lex_order(b, a) == reverse_order(lex_order(a, b)),
    decreases a.len(),
{
    if a.len() > 0 && b.len() > 0 && a[0] == b[0] {
        lemma_lex_reverse(a.drop_first(), b.drop_first());
    }
}

proof fn lemma_lex_equal(a: Seq<int>, b: Seq<int>)
    requires
        lex_order(a, b) == ValueOrder::Equal,
    ensures
        a == b,
    decreases a.len(),
{
    if a.len() > 0 {
        lemma_lex_equal(a.drop_first(), b.drop_first());
        assert forall|i: int| 0 <= i < a.len() implies a[i] == b[i] by {
            if i > 0 {
                assert(a[i] == a.drop_first()[i - 1]);
                assert(b[i] == b.drop_first()[i - 1]);
            }
        }
        assert(a =~= b);
    }
}

proof fn lemma_lex_reflexive(a: Seq<int>)
    ensures
        lex_order(a, a) == ValueOrder::Equal,
    decreases a.len(),
{
    if a.len() > 0 {
        lemma_lex_reflexive(a.drop_first());
    }
}

proof fn lemma_lex_less_transitive(a: Seq<int>, b: Seq<int>, c: Seq<int>)
    requires
        lex_order(a, b) == ValueOrder::Less,
        lex_order(b, c) == ValueOrder::Less,
    ensures
        lex_order(a, c) == ValueOrder::Less,
    decreases a.len(),
{
    if a.len() > 0 && b.len() > 0 && c.len() > 0 && a[0] == b[0] && b[0] == c[0] {
        lemma_lex_less_transitive(a.drop_first(), b.drop_first(), c.drop_first());
    }
}

/// The facts about lexicographic order that the laws of `value_order` rest on.
proof fn lemma_lex_facts(a: Seq<int>, b: Seq<int>, c: Seq<int>)
    ensures
        lex_order(b, a) == reverse_order(lex_order(a, b)),
        lex_order(a, a) == ValueOrder::Equal,
        lex_order(a, b) == ValueOrder::Equal ==> a == b,
        lex_order(b, c) == ValueOrder::Equal ==> b == c,
        lex_order(a, b) == ValueOrder::Less && lex_order(b, c) == ValueOrder::Less ==> lex_order(a, c)
            == ValueOrder::Less,
{
    lemma_lex_reverse(a, b);
    lemma_lex_reflexive(a);
    if lex_order(a, b) == ValueOrder::Equal {
        lemma_lex_equal(a, b);
    }
    if lex_order(b, c) == ValueOrder::Equal {
        lemma_lex_equal(b, c);
    }
    if lex_order(a, b) == ValueOrder::Less && lex_order(b, c) == ValueOrder::Less {
        lemma_lex_less_transitive(a, b, c);
    }
}

/// Values of different kinds are ordered by the rank of their kinds.
proof fn lemma_order_by_rank(a: SqlValue, b: SqlValue)
    requires
        variant_rank(a) != variant_rank(b),
    ensures
        value_order(a, b) == order_int(variant_rank(a), variant_rank(b)),
{
}

/// Whether no two of three values need a float order.
pub open spec fn no_float_pair(a: SqlValue, b: SqlValue, c: SqlValue) -> bool {
    &&& !needs_float_order(a, b)
    &&& !needs_float_order(b, c)
    &&& !needs_float_order(a, c)
}

proof fn lemma_text_pair(x: Seq<char>, y: Seq<char>, z: Seq<char>)
    ensures
        text_order(y, x) == reverse_order(text_order(x, y)),
        text_order(x, x) == ValueOrder::Equal,
        text_order(x, y) == ValueOrder::Equal ==> text_order(x, z) == text_order(y, z),
        text_order(x, y) == ValueOrder::Equal ==> text_order(z, x) == text_order(z, y),
        text_order(x, y) == ValueOrder::Less && text_order(y, z) == ValueOrder::Less
            ==> text_order(x, z) == ValueOrder::Less,
{
    lemma_lex_facts(char_codes(x), char_codes(y), char_codes(z));
}

proof fn lemma_bytes_pair(x: Seq<u8>, y: Seq<u8>, z: Seq<u8>)
    ensures
        lex_order(byte_codes(y), byte_codes(x)) == reverse_order(
            lex_order(byte_codes(x), byte_codes(y)),
        ),
        lex_order(byte_codes(x), byte_codes(x)) == ValueOrder::Equal,
        lex_order(byte_codes(x), byte_codes(y)) == ValueOrder::Equal ==> byte_codes(x)
            == byte_codes(y),
        lex_order(byte_codes(x), byte_codes(y)) == ValueOrder::Less && lex_order(
            byte_codes(y),
            byte_codes(z),
        ) == ValueOrder::Less ==> lex_order(byte_codes(x), byte_codes(z)) == ValueOrder::Less,
{
    lemma_lex_facts(byte_codes(x), byte_codes(y), byte_codes(z));
}

/// The text-level facts for the labels and values of three enum or custom values.
proof fn lemma_labelled(
    t1: Seq<char>,
    v1: Seq<char>,
    t2: Seq<char>,
    v2: Seq<char>,
    t3: Seq<char>,
    v3: Seq<char>,
)
    ensures
        then_order(text_order(t2, t1), text_order(v2, v1)) == reverse_order(
            then_order(text_order(t1, t2), text_order(v1, v2)),
        ),
        then_order(text_order(t1, t1), text_order(v1, v1)) == ValueOrder::Equal,
        then_order(text_order(t1, t2), text_order(v1, v2)) == ValueOrder::Equal ==> then_order(
            text_order(t1, t3),
            text_order(v1, v3),
        ) == then_order(text_order(t2, t3), text_order(v2, v3)),
        then_order(text_order(t1, t2), text_order(v1, v2)) == ValueOrder::Less && then_order(
            text_order(t2, t3),
            text_order(v2, v3),
        ) == ValueOrder::Less ==> then_order(text_order(t1, t3), text_order(v1, v3))
            == ValueOrder::Less,
{
    lemma_text_pair(t1, t2, t3);
    lemma_text_pair(v1, v2, v3);
    lemma_text_pair(t2, t3, t1);
    lemma_text_pair(v2, v3, v1);
}

/// The laws for three values of one kind.
proof fn lemma_same_kind(a: SqlValue, b: SqlValue, c: SqlValue)
    requires
        variant_rank(a) == variant_rank(b),
        variant_rank(b) == variant_rank(c),
        no_float_pair(a, b, c),
    ensures
        value_order(b, a) == reverse_order(value_order(a, b)),
        value_order(a, a) == ValueOrder::Equal,
        value_order(a, b) == ValueOrder::Equal ==> value_order(a, c) == value_order(b, c),
        value_order(a, b) == ValueOrder::Less && value_order(b, c) == ValueOrder::Less
            ==> value_order(a, c) == ValueOrder::Less,
{
    match (a, b, c) {
        (SqlValue::Text(x), SqlValue::Text(y), SqlValue::Text(z)) => {
            lemma_text_pair(x@, y@, z@);
        },
        (SqlValue::Bytes(x), SqlValue::Bytes(y), SqlValue::Bytes(z)) => {
            lemma_bytes_pair(x@, y@, z@);
        },
        (
            SqlValue::Enum { type_label: t1, value: v1 },
            SqlValue::Enum { type_label: t2, value: v2 },
            SqlValue::Enum { type_label: t3, value: v3 },
        ) => {
            lemma_labelled(t1@, v1@, t2@, v2@, t3@, v3@);
        },
        (
            SqlValue::Custom { type_label: t1, value: v1 },
            SqlValue::Custom { type_label: t2, value: v2 },
            SqlValue::Custom { type_label: t3, value: v3 },
        ) => {
            lemma_labelled(t1@, v1@, t2@, v2@, t3@, v3@);
        },
        _ => {},
    }
}

/// Swapping the two sides of a comparison reverses its order.
pub proof fn lemma_order_antisymmetric(a: SqlValue, b: SqlValue)
    requires
        !needs_float_order(a, b),
    ensures
        value_order(b, a) == reverse_order(value_order(a, b)),
{
    if variant_rank(a) == variant_rank(b) {
        lemma_same_kind(a, b, b);
    } else {
        lemma_order_by_rank(a, b);
        lemma_order_by_rank(b, a);
    }
}

/// Every value that is not a float is equal to itself.
pub proof fn lemma_order_reflexive(a: SqlValue)
    requires
        !(a is Float),
    ensures
        value_order(a, a) == ValueOrder::Equal,
{
    lemma_same_kind(a, a, a);
}

/// The order is transitive: `a < b` and `b < c` give `a < c`.
pub proof fn lemma_order_transitive(a: SqlValue, b: SqlValue, c: SqlValue)
    requires
        no_float_pair(a, b, c),
        value_order(a, b) == ValueOrder::Less,
        value_order(b, c) == ValueOrder::Less,
    ensures
        value_order(a, c) == ValueOrder::Less,
{
    if variant_rank(a) == variant_rank(b) && variant_rank(b) == variant_rank(c) {
        lemma_same_kind(a, b, c);
    } else {
        if variant_rank(a) != variant_rank(b) {
            lemma_order_by_rank(a, b);
        }
        if variant_rank(b) != variant_rank(c) {
            lemma_order_by_rank(b, c);
        }
        if variant_rank(a) != variant_rank(c) {
            lemma_order_by_rank(a, c);
        }
    }
}

/// Values that compare equal compare alike with every third value.
pub proof fn lemma_order_equal_substitutes(a: SqlValue, b: SqlValue, c: SqlValue)
    requires
        no_float_pair(a, b, c),
        value_order(a, b) == ValueOrder::Equal,
    ensures
        value_order(a, c) == value_order(b, c),
{
    if variant_rank(a) == variant_rank(b) && variant_rank(b) == variant_rank(c) {
        lemma_same_kind(a, b, c);
    } else {
        if variant_rank(a) != variant_rank(b) {
            lemma_order_by_rank(a, b);
        }
        if variant_rank(b) != variant_rank(c) {
            lemma_order_by_rank(b, c);
        }
        if variant_rank(a) != variant_rank(c) {
            lemma_order_by_rank(a, c);
        }
    }
}

/// Values of different kinds are never equal: text is never equal to a number, and so on.
pub proof fn lemma_kinds_never_equal(a: SqlValue, b: SqlValue)
    requires
        !needs_float_order(a, b),
        variant_rank(a) != variant_rank(b),
    ensures
        value_order(a, b) != ValueOrder::Equal,
{
    lemma_order_by_rank(a, b);
}

/// NULL comes before every other value.
pub proof fn lemma_null_first(a: SqlValue)
    requires
        !(a is Null),
    ensures
        value_order(SqlValue::Null, a) == ValueOrder::Less,
        value_order(a, SqlValue::Null) == ValueOrder::Greater,
{
}

/// Every comparison with NULL on either side is unknown, whatever the order.
pub proof fn lemma_null_compares_unknown(a: SqlValue, b: SqlValue, order: ValueOrder)
    requires
        a is Null || b is Null,
    ensures
        spec_eq(a, b, order) == SqlBool::Unknown,
        spec_not(spec_eq(a, b, order)) == SqlBool::Unknown,
        spec_gt(a, b, order) == SqlBool::Unknown,
        spec_lt(a, b, order) == SqlBool::Unknown,
        spec_gteq(a, b, order) == SqlBool::Unknown,
        spec_lteq(a, b, order) == SqlBool::Unknown,
{
}

/// `a > b` says the same as `b < a`, and `a >= b` the same as `b <= a`.
pub proof fn lemma_gt_is_swapped_lt(a: SqlValue, b: SqlValue)
    requires
        !needs_float_order(a, b),
    ensures
        spec_gt(a, b, value_order(a, b)) == spec_lt(b, a, value_order(b, a)),
        spec_gteq(a, b, value_order(a, b)) == spec_lteq(b, a, value_order(b, a)),
        spec_eq(a, b, value_order(a, b)) == spec_eq(b, a, value_order(b, a)),
{
    lemma_order_antisymmetric(a, b);
}

/// Exactly one of `<`, `=`, `>` holds between two values that are not NULL.
pub proof fn lemma_trichotomy(a: SqlValue, b: SqlValue, order: ValueOrder)
    requires
        !(a is Null),
        !(b is Null),
    ensures
        (spec_lt(a, b, order) == SqlBool::True) as int + (spec_eq(a, b, order) == SqlBool::True) as int
            + (spec_gt(a, b, order) == SqlBool::True) as int == 1,
{
}

/// `=` is symmetric, and it is unknown exactly when a side is NULL.
pub proof fn lemma_eq_symmetric_unknown_iff_null(a: SqlValue, b: SqlValue)
    requires
        !needs_float_order(a, b),
    ensures
        spec_eq(a, b, value_order(a, b)) == spec_eq(b, a, value_order(b, a)),
        (spec_eq(a, b, value_order(a, b)) == SqlBool::Unknown) <==> (a is Null || b is Null),
{
    lemma_order_antisymmetric(a, b);
}

/// `>` is strict and asymmetric: when `a > b` holds, `b > a` and `a = b` are false.
pub proof fn lemma_gt_strict(a: SqlValue, b: SqlValue)
    requires
        !needs_float_order(a, b),
        spec_gt(a, b, value_order(a, b)) == SqlBool::True,
    ensures
        spec_gt(b, a, value_order(b, a)) == SqlBool::False,
        spec_eq(a, b, value_order(a, b)) == SqlBool::False,
{
    lemma_order_antisymmetric(a, b);
}

/// Instants, dates and times are ordered chronologically: the earlier second comes first,
/// and within the same second the earlier nanosecond; for instants whose nanoseconds stay
/// below one second, that is the order of their nanosecond counts since the epoch.
pub proof fn lemma_chronological(a: SqlValue, b: SqlValue)
    ensures
        a matches SqlValue::Timestamp(x) ==> (b matches SqlValue::Timestamp(y) ==> {
            &&& x.secs < y.secs ==> value_order(a, b) == ValueOrder::Less
            &&& x.secs > y.secs ==> value_order(a, b) == ValueOrder::Greater
            &&& x.secs == y.secs && x.nanos < y.nanos ==> value_order(a, b) == ValueOrder::Less
            &&& x.secs == y.secs && x.nanos > y.nanos ==> value_order(a, b) == ValueOrder::Greater
            &&& x.secs == y.secs && x.nanos == y.nanos ==> value_order(a, b) == ValueOrder::Equal
            &&& x.nanos < 1_000_000_000 && y.nanos < 1_000_000_000 ==> {
                &&& (value_order(a, b) == ValueOrder::Less) == (x.secs * 1_000_000_000 + x.nanos
                    < y.secs * 1_000_000_000 + y.nanos)
                &&& (value_order(a, b) == ValueOrder::Equal) == (x.secs * 1_000_000_000 + x.nanos
                    == y.secs * 1_000_000_000 + y.nanos)
            }
        }),
        a matches SqlValue::Date(x) ==> (b matches SqlValue::Date(y) ==> {
            &&& x.days_from_ce < y.days_from_ce ==> value_order(a, b) == ValueOrder::Less
            &&& x.days_from_ce > y.days_from_ce ==> value_order(a, b) == ValueOrder::Greater
            &&& x.days_from_ce == y.days_from_ce ==> value_order(a, b) == ValueOrder::Equal
        }),
        a matches SqlValue::Time(x) ==> (b matches SqlValue::Time(y) ==> {
            &&& x.secs < y.secs ==> value_order(a, b) == ValueOrder::Less
            &&& x.secs > y.secs ==> value_order(a, b) == ValueOrder::Greater
            &&& x.secs == y.secs && x.nanos < y.nanos ==> value_order(a, b) == ValueOrder::Less
            &&& x.secs == y.secs && x.nanos > y.nanos ==> value_order(a, b) == ValueOrder::Greater
            &&& x.secs == y.secs && x.nanos == y.nanos ==> value_order(a, b) == ValueOrder::Equal
        }),
{
    if let (SqlValue::Timestamp(x), SqlValue::Timestamp(y)) = (a, b) {
        if x.nanos < 1_000_000_000 && y.nanos < 1_000_000_000 {
            let (s1, n1, s2, n2) = (x.secs as int, x.nanos as int, y.secs as int, y.nanos as int);
            assert(s1 < s2 ==> s1 * 1_000_000_000 + n1 < s2 * 1_000_000_000 + n2) by (nonlinear_arith)
                requires
                    0 <= n1 < 1_000_000_000,
                    0 <= n2 < 1_000_000_000,
            ;
            assert(s1 > s2 ==> s1 * 1_000_000_000 + n1 > s2 * 1_000_000_000 + n2) by (nonlinear_arith)
                requires
                    0 <= n1 < 1_000_000_000,
                    0 <= n2 < 1_000_000_000,
            ;
        }
    }
}

proof fn lemma_lex_first_difference(a: Seq<int>, b: Seq<int>, i: int)
    requires
        0 <= i <= a.len(),
        i <= b.len(),
        forall|j: int| 0 <= j < i ==> a[j] == b[j],
        (i < a.len() && i < b.len() && a[i] < b[i]) || (i == a.len() && i < b.len()),
    ensures
        lex_order(a, b) == ValueOrder::Less,
    decreases i,
{
    if i > 0 {
        assert(a[0] == b[0]);
        assert forall|j: int| 0 <= j < i - 1 implies a.drop_first()[j] == b.drop_first()[j] by {
            assert(a[j + 1] == b[j + 1]);
        }
        lemma_lex_first_difference(a.drop_first(), b.drop_first(), i - 1);
    }
}

/// Integers by value, false before true, and texts by code points: a text before every
/// longer text that starts with it, and before every text whose first differing character
/// has a larger code point.
pub proof fn lemma_scalar_order(a: SqlValue, b: SqlValue)
    ensures
        a matches SqlValue::Int(x) ==> (b matches SqlValue::Int(y) ==> {
            &&& (value_order(a, b) == ValueOrder::Less) == (x < y)
            &&& (value_order(a, b) == ValueOrder::Equal) == (x == y)
        }),
        a == SqlValue::Bool(false) && b == SqlValue::Bool(true) ==> value_order(a, b)
            == ValueOrder::Less,
        a matches SqlValue::Text(x) ==> (b matches SqlValue::Text(y) ==> (x@.len() < y@.len()
            && x@ == y@.subrange(0, x@.len() as int) ==> value_order(a, b) == ValueOrder::Less)),
        a matches SqlValue::Text(x) ==> (b matches SqlValue::Text(y) ==> forall|i: int|
            0 <= i < x@.len() && i < y@.len() && (forall|j: int| 0 <= j < i ==> x@[j] == y@[j])
                && (#[trigger] x@[i] as int) < (y@[i] as int) ==> value_order(a, b)
                == ValueOrder::Less),
{
    if let (SqlValue::Text(x), SqlValue::Text(y)) = (a, b) {
        let cx = char_codes(x@);
        let cy = char_codes(y@);
        if x@.len() < y@.len() && x@ == y@.subrange(0, x@.len() as int) {
            assert forall|j: int| 0 <= j < x@.len() implies cx[j] == cy[j] by {
                assert(x@[j] == y@.subrange(0, x@.len() as int)[j]);
            }
            lemma_lex_first_difference(cx, cy, x@.len() as int);
        }
        assert forall|i: int|
            0 <= i < x@.len() && i < y@.len() && (forall|j: int| 0 <= j < i ==> x@[j] == y@[j])
                && (#[trigger] x@[i] as int) < (y@[i] as int) implies value_order(a, b)
                == ValueOrder::Less by {
            assert forall|j: int| 0 <= j < i implies cx[j] == cy[j] by {
                assert(x@[j] == y@[j]);
            }
            lemma_lex_first_difference(cx, cy, i);
        }
    }
}

} // verus!
