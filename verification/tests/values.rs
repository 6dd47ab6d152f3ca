use sql::domain::types::arithmetic::{ArithOutcome};
use sql::domain::types::cast::{CastOutcome, FloatCast};
use sql::domain::types::ordering::{Comparison, FloatOperand, ValueOrder};
use sql::domain::types::sql_value::{DateValue, TimeValue, TimestampValue};
use sql::domain::expr::eval_binary_op;
use sql::{BinaryOp, DomainError, SqlBool, SqlType, SqlValue};

fn text(s: &str) -> SqlValue {
    SqlValue::Text(s.to_string())
}

fn order(a: &SqlValue, b: &SqlValue) -> ValueOrder {
    match a.compare(b) {
        Comparison::Ordered(o) => o,
        Comparison::Floats(..) => panic!("float comparison"),
    }
}

fn eval_message(r: Result<ArithOutcome, DomainError>) -> String {
    match r {
        Err(DomainError::EvaluationError(m)) => m,
        other => panic!("unexpected {:?}", other),
    }
}

#[test]
fn null_is_first_and_compares_unknown() {
    assert_eq!(order(&SqlValue::Null, &SqlValue::Int(-5)), ValueOrder::Less);
    assert_eq!(order(&text("a"), &SqlValue::Null), ValueOrder::Greater);
    assert_eq!(order(&SqlValue::Null, &SqlValue::Null), ValueOrder::Equal);
    let o = order(&SqlValue::Null, &SqlValue::Int(1));
    assert_eq!(SqlValue::Null.eq(&SqlValue::Int(1), o), SqlBool::Unknown);
    assert_eq!(SqlValue::Null.noteq(&SqlValue::Int(1), o), SqlBool::Unknown);
    assert_eq!(SqlValue::Int(1).gt(&SqlValue::Null, ValueOrder::Greater), SqlBool::Unknown);
    assert_eq!(SqlValue::Null.lteq(&SqlValue::Null, ValueOrder::Equal), SqlBool::Unknown);
}

#[test]
fn integers_compare_by_value() {
    let a = SqlValue::Int(3);
    let b = SqlValue::Int(10);
    let o = order(&a, &b);
    assert_eq!(o, ValueOrder::Less);
    assert_eq!(a.lt(&b, o), SqlBool::True);
    assert_eq!(a.gt(&b, o), SqlBool::False);
    assert_eq!(a.lteq(&b, o), SqlBool::True);
    assert_eq!(a.gteq(&b, o), SqlBool::False);
    assert_eq!(a.eq(&b, o), SqlBool::False);
    assert_eq!(a.noteq(&b, o), SqlBool::True);
    assert_eq!(order(&b, &a), ValueOrder::Greater);
}

#[test]
fn text_compares_lexicographically() {
    assert_eq!(order(&text("abc"), &text("abd")), ValueOrder::Less);
    assert_eq!(order(&text("ab"), &text("abc")), ValueOrder::Less);
    assert_eq!(order(&text("b"), &text("abc")), ValueOrder::Greater);
    assert_eq!(order(&text("Zebra"), &text("apple")), ValueOrder::Less);
    assert_eq!(order(&text("é"), &text("z")), ValueOrder::Greater);
    assert_eq!(order(&text(""), &text("")), ValueOrder::Equal);
    let o = order(&text("x"), &text("x"));
    assert_eq!(text("x").eq(&text("x"), o), SqlBool::True);
}

#[test]
fn other_kinds_compare_within_their_kind() {
    assert_eq!(order(&SqlValue::Bool(false), &SqlValue::Bool(true)), ValueOrder::Less);
    assert_eq!(order(&SqlValue::Bytes(vec![1, 2]), &SqlValue::Bytes(vec![1, 3])), ValueOrder::Less);
    assert_eq!(order(&SqlValue::Bytes(vec![1, 2, 0]), &SqlValue::Bytes(vec![1, 2])), ValueOrder::Greater);
    let t1 = SqlValue::Timestamp(TimestampValue { secs: 100, nanos: 5 });
    let t2 = SqlValue::Timestamp(TimestampValue { secs: 100, nanos: 7 });
    assert_eq!(order(&t1, &t2), ValueOrder::Less);
    let d1 = SqlValue::Date(DateValue { days_from_ce: 738000 });
    let d2 = SqlValue::Date(DateValue { days_from_ce: 737999 });
    assert_eq!(order(&d1, &d2), ValueOrder::Greater);
    let h1 = SqlValue::Time(TimeValue { secs: 3600, nanos: 0 });
    let h2 = SqlValue::Time(TimeValue { secs: 3599, nanos: 999 });
    assert_eq!(order(&h1, &h2), ValueOrder::Greater);
    let e1 = SqlValue::Enum { type_label: "status".to_string(), value: "ACTIVE".to_string() };
    let e2 = SqlValue::Enum { type_label: "status".to_string(), value: "BANNED".to_string() };
    assert_eq!(order(&e1, &e2), ValueOrder::Less);
}

#[test]
fn different_kinds_are_never_equal() {
    let a = text("10");
    let b = SqlValue::Int(10);
    let o = order(&a, &b);
    assert_ne!(o, ValueOrder::Equal);
    assert_eq!(a.eq(&b, o), SqlBool::False);
    assert_eq!(o, ValueOrder::Greater);
    assert_eq!(order(&SqlValue::Int(99), &SqlValue::Bool(false)), ValueOrder::Less);
}

#[test]
fn floats_are_left_to_the_caller() {
    assert_eq!(
        SqlValue::Float(1.5f64.to_bits()).compare(&SqlValue::Int(2)),
        Comparison::Floats(FloatOperand::Bits(1.5f64.to_bits()), FloatOperand::Int(2))
    );
    assert_eq!(
        SqlValue::Int(-1).compare(&SqlValue::Float(0.5f64.to_bits())),
        Comparison::Floats(FloatOperand::Int(-1), FloatOperand::Bits(0.5f64.to_bits()))
    );
    assert_eq!(
        SqlValue::Float(2.0f64.to_bits()).compare(&text("a")),
        Comparison::Ordered(ValueOrder::Less)
    );
}

#[test]
fn order_is_transitive_on_a_sample() {
    let vals = vec![
        SqlValue::Null,
        SqlValue::Int(-3),
        SqlValue::Int(4),
        text("a"),
        text("ab"),
        SqlValue::Bool(false),
        SqlValue::Bool(true),
        SqlValue::Bytes(vec![]),
        SqlValue::Date(DateValue { days_from_ce: 1 }),
    ];
    for a in &vals {
        for b in &vals {
            let ab = order(a, b);
            let ba = order(b, a);
            let flipped = match ab {
                ValueOrder::Less => ValueOrder::Greater,
                ValueOrder::Equal => ValueOrder::Equal,
                ValueOrder::Greater => ValueOrder::Less,
            };
            assert_eq!(ba, flipped);
            for c in &vals {
                if ab == ValueOrder::Less && order(b, c) == ValueOrder::Less {
                    assert_eq!(order(a, c), ValueOrder::Less);
                }
            }
        }
    }
}

#[test]
fn integer_arithmetic() {
    assert_eq!(SqlValue::Int(2).add(&SqlValue::Int(3)), Ok(ArithOutcome::Value(SqlValue::Int(5))));
    assert_eq!(SqlValue::Int(2).sub(&SqlValue::Int(3)), Ok(ArithOutcome::Value(SqlValue::Int(-1))));
    assert_eq!(SqlValue::Int(-4).mul(&SqlValue::Int(3)), Ok(ArithOutcome::Value(SqlValue::Int(-12))));
    assert_eq!(SqlValue::Int(-7).div(&SqlValue::Int(2)), Ok(ArithOutcome::Value(SqlValue::Int(-3))));
    assert_eq!(SqlValue::Int(7).div(&SqlValue::Int(-2)), Ok(ArithOutcome::Value(SqlValue::Int(-3))));
    assert_eq!(SqlValue::Int(-7).div(&SqlValue::Int(-2)), Ok(ArithOutcome::Value(SqlValue::Int(3))));
    assert_eq!(
        SqlValue::Int(i64::MIN).div(&SqlValue::Int(1)),
        Ok(ArithOutcome::Value(SqlValue::Int(i64::MIN)))
    );
}

#[test]
fn null_propagates_through_arithmetic() {
    assert_eq!(SqlValue::Null.add(&SqlValue::Int(1)), Ok(ArithOutcome::Value(SqlValue::Null)));
    assert_eq!(text("x").mul(&SqlValue::Null), Ok(ArithOutcome::Value(SqlValue::Null)));
    assert_eq!(SqlValue::Null.div(&SqlValue::Int(0)), Ok(ArithOutcome::Value(SqlValue::Null)));
}

#[test]
fn arithmetic_errors() {
    assert_eq!(
        eval_message(SqlValue::Int(1).div(&SqlValue::Int(0))),
        "Pembagian dengan nol (Division by zero)"
    );
    assert_eq!(
        eval_message(SqlValue::Float(1.0f64.to_bits()).div(&SqlValue::Float((-0.0f64).to_bits()))),
        "Pembagian dengan nol (Division by zero)"
    );
    assert_eq!(
        eval_message(text("a").div(&SqlValue::Int(0))),
        "Pembagian dengan nol (Division by zero)"
    );
    assert_eq!(
        eval_message(text("a").add(&SqlValue::Int(1))),
        "Tipe data tidak valid untuk operasi penjumlahan"
    );
    assert_eq!(
        eval_message(SqlValue::Bool(true).sub(&SqlValue::Int(1))),
        "Tipe data tidak valid untuk operasi pengurangan"
    );
    assert_eq!(
        eval_message(SqlValue::Bytes(vec![]).mul(&SqlValue::Int(1))),
        "Tipe data tidak valid meperoleh operasi perkalian"
    );
    assert_eq!(
        eval_message(SqlValue::Float(1.0f64.to_bits()).div(&SqlValue::Int(2))),
        "Tipe data tidak valid untuk operasi pembagian"
    );
}

#[test]
fn float_arithmetic_is_handed_back() {
    let x = 1.5f64.to_bits();
    assert_eq!(
        SqlValue::Int(2).add(&SqlValue::Float(x)),
        Ok(ArithOutcome::Floats(FloatOperand::Int(2), FloatOperand::Bits(x)))
    );
    assert_eq!(
        SqlValue::Float(x).mul(&SqlValue::Int(4)),
        Ok(ArithOutcome::Floats(FloatOperand::Bits(x), FloatOperand::Int(4)))
    );
}

#[test]
fn casts_within_and_between_types() {
    assert_eq!(SqlValue::Null.try_cast_to(&SqlType::Int), Ok(CastOutcome::Value(SqlValue::Null)));
    assert_eq!(SqlValue::Int(5).try_cast_to(&SqlType::Int), Ok(CastOutcome::Value(SqlValue::Int(5))));
    assert_eq!(SqlValue::Int(-42).try_cast_to(&SqlType::Text), Ok(CastOutcome::Value(text("-42"))));
    assert_eq!(SqlValue::Int(0).try_cast_to(&SqlType::Text), Ok(CastOutcome::Value(text("0"))));
    assert_eq!(
        SqlValue::Int(i64::MIN).try_cast_to(&SqlType::Text),
        Ok(CastOutcome::Value(text("-9223372036854775808")))
    );
    assert_eq!(SqlValue::Bool(true).try_cast_to(&SqlType::Text), Ok(CastOutcome::Value(text("true"))));
    assert_eq!(text("  42 ").try_cast_to(&SqlType::Int), Ok(CastOutcome::Value(SqlValue::Int(42))));
    assert_eq!(text("+7").try_cast_to(&SqlType::Int), Ok(CastOutcome::Value(SqlValue::Int(7))));
    assert_eq!(text(" T ").try_cast_to(&SqlType::Bool), Ok(CastOutcome::Value(SqlValue::Bool(true))));
    assert_eq!(text("FALSE").try_cast_to(&SqlType::Bool), Ok(CastOutcome::Value(SqlValue::Bool(false))));
    assert_eq!(text("0").try_cast_to(&SqlType::Bool), Ok(CastOutcome::Value(SqlValue::Bool(false))));
    assert_eq!(
        SqlValue::Int(3).try_cast_to(&SqlType::Float),
        Ok(CastOutcome::Float(FloatCast::IntToFloat(3)))
    );
    assert_eq!(
        text(" 2.5 ").try_cast_to(&SqlType::Float),
        Ok(CastOutcome::Float(FloatCast::TextToFloat {
            text: "2.5".to_string(),
            source: " 2.5 ".to_string()
        }))
    );
}

#[test]
fn cast_failures() {
    match text("12x").try_cast_to(&SqlType::Int) {
        Err(DomainError::EvaluationError(m)) => assert_eq!(m, "Gagal mengonversi teks '12x' ke Int"),
        other => panic!("unexpected {:?}", other),
    }
    match text("9223372036854775808").try_cast_to(&SqlType::Int) {
        Err(DomainError::EvaluationError(m)) => {
            assert_eq!(m, "Gagal mengonversi teks '9223372036854775808' ke Int")
        }
        other => panic!("unexpected {:?}", other),
    }
    match text("yes").try_cast_to(&SqlType::Bool) {
        Err(DomainError::EvaluationError(m)) => assert_eq!(m, "Gagal mengonversi teks 'yes' ke Bool"),
        other => panic!("unexpected {:?}", other),
    }
    assert!(matches!(
        SqlValue::Bytes(vec![1]).try_cast_to(&SqlType::Int),
        Err(DomainError::EvaluationError(_))
    ));
    assert!(matches!(text("x").try_cast_to(&SqlType::Timestamp), Err(DomainError::EvaluationError(_))));
}

#[test]
fn casts_to_enum_and_custom_types() {
    let status = SqlType::Enum {
        name: "status".to_string(),
        variants: vec!["ACTIVE".to_string(), "BANNED".to_string()],
    };
    assert_eq!(
        text("ACTIVE").try_cast_to(&status),
        Ok(CastOutcome::Value(SqlValue::Enum {
            type_label: "status".to_string(),
            value: "ACTIVE".to_string()
        }))
    );
    match text("active").try_cast_to(&status) {
        Err(DomainError::EvaluationError(m)) => {
            assert_eq!(m, "Nilai 'active' tidak valid untuk varian Enum 'status'")
        }
        other => panic!("unexpected {:?}", other),
    }
    assert_eq!(
        text("#ff0000").try_cast_to(&SqlType::Custom("color".to_string())),
        Ok(CastOutcome::Value(SqlValue::Custom {
            type_label: "color".to_string(),
            value: "#ff0000".to_string()
        }))
    );
}

#[test]
fn casts_text_to_dates_and_times() {
    assert_eq!(
        text("2024-03-01").try_cast_to(&SqlType::Date),
        Ok(CastOutcome::Value(SqlValue::Date(DateValue { days_from_ce: 738946 })))
    );
    assert_eq!(
        text("13:45").try_cast_to(&SqlType::Time),
        Ok(CastOutcome::Value(SqlValue::Time(TimeValue { secs: 49500, nanos: 0 })))
    );
    assert!(matches!(
        text("01/03/2024").try_cast_to(&SqlType::Date),
        Err(DomainError::InvalidExpression(_))
    ));
}

#[test]
fn parses_dates_and_times() {
    assert_eq!(
        SqlValue::parse_date("0001-01-01"),
        Ok(SqlValue::Date(DateValue { days_from_ce: 1 }))
    );
    assert_eq!(
        SqlValue::parse_time("00:00:10"),
        Ok(SqlValue::Time(TimeValue { secs: 10, nanos: 0 }))
    );
    assert_eq!(
        SqlValue::parse_time("23:59"),
        Ok(SqlValue::Time(TimeValue { secs: 86340, nanos: 0 }))
    );
    match SqlValue::parse_date("2024-13-01") {
        Err(DomainError::InvalidExpression(m)) => assert_eq!(
            m,
            "Format tanggal '2024-13-01' salah (Gunakan YYYY-MM-DD): input is out of range"
        ),
        other => panic!("unexpected {:?}", other),
    }
    match SqlValue::parse_time("noon") {
        Err(DomainError::InvalidExpression(m)) => assert_eq!(
            m,
            "Format waktu 'noon' salah (Gunakan HH:MM:SS atau HH:MM): input contains invalid characters"
        ),
        other => panic!("unexpected {:?}", other),
    }
}

#[test]
fn parse_results_become_values() {
    assert_eq!(
        SqlValue::date_from_parsed("x", Ok(DateValue { days_from_ce: 5 })),
        Ok(SqlValue::Date(DateValue { days_from_ce: 5 }))
    );
    assert_eq!(
        SqlValue::date_from_parsed("x", Err("why".to_string())),
        Err(DomainError::InvalidExpression(
            "Format tanggal 'x' salah (Gunakan YYYY-MM-DD): why".to_string()
        ))
    );
    assert_eq!(
        SqlValue::time_from_parsed("y", Err("bad".to_string())),
        Err(DomainError::InvalidExpression(
            "Format waktu 'y' salah (Gunakan HH:MM:SS atau HH:MM): bad".to_string()
        ))
    );
}

#[test]
fn matches_type_rules() {
    assert!(SqlValue::Null.matches_type(&SqlType::Int));
    assert!(SqlValue::Int(1).matches_type(&SqlType::Int));
    assert!(!SqlValue::Int(1).matches_type(&SqlType::Text));
    let status = SqlType::Enum { name: "status".to_string(), variants: vec!["ON".to_string()] };
    let on = SqlValue::Enum { type_label: "status".to_string(), value: "ON".to_string() };
    let off = SqlValue::Enum { type_label: "status".to_string(), value: "OFF".to_string() };
    let other = SqlValue::Enum { type_label: "mode".to_string(), value: "ON".to_string() };
    assert!(on.matches_type(&status));
    assert!(!off.matches_type(&status));
    assert!(!other.matches_type(&status));
    let c = SqlValue::Custom { type_label: "color".to_string(), value: "red".to_string() };
    assert!(c.matches_type(&SqlType::Custom("color".to_string())));
    assert!(!c.matches_type(&SqlType::Custom("size".to_string())));
}

#[test]
fn like_patterns() {
    assert_eq!(text("hello world").like(&text("hello%")), Ok(SqlBool::True));
    assert_eq!(text("hello").like(&text("h_llo")), Ok(SqlBool::True));
    assert_eq!(text("hello").like(&text("h_lo")), Ok(SqlBool::False));
    assert_eq!(text("a.c").like(&text("a.c")), Ok(SqlBool::True));
    assert_eq!(text("abc").like(&text("a.c")), Ok(SqlBool::False));
    assert_eq!(text("(x)").like(&text("(%)")), Ok(SqlBool::True));
    assert_eq!(SqlValue::Null.like(&text("%")), Ok(SqlBool::Unknown));
    assert!(matches!(SqlValue::Int(1).like(&text("%")), Err(DomainError::EvaluationError(_))));
    let e = SqlValue::Enum { type_label: "s".to_string(), value: "ACTIVE".to_string() };
    assert_eq!(e.like(&text("ACT%")), Ok(SqlBool::True));
}

#[test]
fn like_pattern_becomes_an_anchored_regex() {
    assert_eq!(sql::domain::types::sql_value::like_pattern_regex("a%b_c."), "^a.*b.c\\.$");
    assert_eq!(sql::domain::types::sql_value::like_pattern_regex(""), "^$");
}

#[test]
fn variant_names() {
    assert_eq!(SqlValue::Null.variant_name(), "Null");
    assert_eq!(SqlValue::Float(0).variant_name(), "Float");
    assert_eq!(
        SqlValue::Custom { type_label: "a".to_string(), value: "b".to_string() }.variant_name(),
        "Custom"
    );
    assert!(SqlValue::Null.is_null());
    assert!(!SqlValue::Int(0).is_null());
}

#[test]
fn conversions_into_values() {
    assert_eq!(SqlValue::from(7i64), SqlValue::Int(7));
    assert_eq!(SqlValue::from(-7i32), SqlValue::Int(-7));
    assert_eq!(SqlValue::from(9usize), SqlValue::Int(9));
    assert_eq!(SqlValue::from("hi"), text("hi"));
    assert_eq!(SqlValue::from("hi".to_string()), text("hi"));
    assert_eq!(SqlValue::from(true), SqlValue::Bool(true));
    assert_eq!(SqlValue::from(vec![1u8, 2]), SqlValue::Bytes(vec![1, 2]));
    assert_eq!(SqlValue::from(&[5u8, 6, 7][..]), SqlValue::Bytes(vec![5, 6, 7]));
}

#[test]
fn conversions_out_of_values() {
    assert_eq!(i64::try_from(SqlValue::Int(5)), Ok(5));
    assert_eq!(
        i64::try_from(text("5")),
        Err(DomainError::Conversion { expected: "i64", found: "Text" })
    );
    assert_eq!(i32::try_from(SqlValue::Int(-5)), Ok(-5));
    assert_eq!(
        i32::try_from(SqlValue::Int(1 << 40)),
        Err(DomainError::Conversion { expected: "i32 (out of bounds)", found: "i64" })
    );
    assert_eq!(String::try_from(text("a")), Ok("a".to_string()));
    assert_eq!(bool::try_from(SqlValue::Bool(false)), Ok(false));
    assert_eq!(
        bool::try_from(SqlValue::Null),
        Err(DomainError::Conversion { expected: "bool", found: "Null" })
    );
    assert_eq!(Vec::<u8>::try_from(SqlValue::Bytes(vec![3])), Ok(vec![3]));
    assert_eq!(
        DateValue::try_from(SqlValue::Date(DateValue { days_from_ce: 9 })),
        Ok(DateValue { days_from_ce: 9 })
    );
    assert_eq!(
        TimeValue::try_from(SqlValue::Int(1)),
        Err(DomainError::Conversion { expected: "NaiveTime", found: "Int" })
    );
    assert_eq!(
        TimestampValue::try_from(SqlValue::Timestamp(TimestampValue { secs: 1, nanos: 2 })),
        Ok(TimestampValue { secs: 1, nanos: 2 })
    );
    assert_eq!(SqlBool::try_from(&SqlValue::Bool(true)), Ok(SqlBool::True));
    assert_eq!(SqlBool::try_from(SqlValue::Null), Ok(SqlBool::Unknown));
    assert!(SqlBool::try_from(SqlValue::Int(1)).is_err());
}

#[test]
fn binary_operators_on_values() {
    let one = SqlValue::Int(1);
    let two = SqlValue::Int(2);
    let o = order(&one, &two);
    assert_eq!(
        eval_binary_op(&one, BinaryOp::Lt, &two, o),
        Ok(ArithOutcome::Value(SqlValue::Bool(true)))
    );
    assert_eq!(
        eval_binary_op(&one, BinaryOp::Eq, &two, o),
        Ok(ArithOutcome::Value(SqlValue::Bool(false)))
    );
    assert_eq!(
        eval_binary_op(&SqlValue::Null, BinaryOp::NotEq, &two, ValueOrder::Less),
        Ok(ArithOutcome::Value(SqlValue::Null))
    );
    assert_eq!(
        eval_binary_op(&one, BinaryOp::Mul, &two, o),
        Ok(ArithOutcome::Value(SqlValue::Int(2)))
    );
    assert_eq!(
        eval_binary_op(&SqlValue::Bool(true), BinaryOp::And, &SqlValue::Null, ValueOrder::Greater),
        Ok(ArithOutcome::Value(SqlValue::Null))
    );
    assert_eq!(
        eval_binary_op(&SqlValue::Bool(false), BinaryOp::Or, &SqlValue::Bool(true), ValueOrder::Less),
        Ok(ArithOutcome::Value(SqlValue::Bool(true)))
    );
    assert!(matches!(
        eval_binary_op(&one, BinaryOp::Or, &two, o),
        Err(DomainError::EvaluationError(_))
    ));
}

#[test]
fn swapping_sides_swaps_greater_and_less() {
    let pairs = vec![
        (SqlValue::Int(1), SqlValue::Int(5)),
        (text("b"), text("a")),
        (SqlValue::Bool(true), text("x")),
        (SqlValue::Null, SqlValue::Int(0)),
    ];
    for (a, b) in &pairs {
        let ab = order(a, b);
        let ba = order(b, a);
        assert_eq!(a.gt(b, ab), b.lt(a, ba));
        assert_eq!(a.gteq(b, ab), b.lteq(a, ba));
        assert_eq!(a.eq(b, ab), b.eq(a, ba));
    }
}

#[test]
fn integer_addition_and_multiplication_commute() {
    for (x, y) in [(3i64, -9i64), (0, 7), (-4, -4)] {
        assert_eq!(SqlValue::Int(x).add(&SqlValue::Int(y)), SqlValue::Int(y).add(&SqlValue::Int(x)));
        assert_eq!(SqlValue::Int(x).mul(&SqlValue::Int(y)), SqlValue::Int(y).mul(&SqlValue::Int(x)));
    }
}

#[test]
fn exactly_one_of_less_equal_greater_holds() {
    let vals = [SqlValue::Int(1), SqlValue::Int(2), text("a")];
    for a in &vals {
        for b in &vals {
            let o = order(a, b);
            let n = [a.lt(b, o), a.eq(b, o), a.gt(b, o)]
                .iter()
                .filter(|r| **r == SqlBool::True)
                .count();
            assert_eq!(n, 1);
        }
    }
}

#[test]
fn integers_survive_a_cast_to_text_and_back() {
    for n in [0i64, -1, 42, i64::MAX, i64::MIN] {
        let t = match SqlValue::Int(n).try_cast_to(&SqlType::Text) {
            Ok(CastOutcome::Value(v)) => v,
            other => panic!("unexpected {:?}", other),
        };
        assert_eq!(t, SqlValue::Text(n.to_string()));
        assert_eq!(t.try_cast_to(&SqlType::Int), Ok(CastOutcome::Value(SqlValue::Int(n))));
    }
    assert_eq!(SqlValue::Null.try_cast_to(&SqlType::Bytes), Ok(CastOutcome::Value(SqlValue::Null)));
}
