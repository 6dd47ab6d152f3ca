use sql::domain::types::sql_type::SqlBool;
use sql::domain::SqlValue;

const ALL: [SqlBool; 3] = [SqlBool::True, SqlBool::False, SqlBool::Unknown];

#[test]
fn not_swaps_true_and_false_and_keeps_unknown() {
    assert_eq!(!SqlBool::True, SqlBool::False);
    assert_eq!(!SqlBool::False, SqlBool::True);
    assert_eq!(!SqlBool::Unknown, SqlBool::Unknown);
}

#[test]
fn and_truth_table() {
    assert_eq!(SqlBool::True.and(SqlBool::True), SqlBool::True);
    assert_eq!(SqlBool::True.and(SqlBool::Unknown), SqlBool::Unknown);
    assert_eq!(SqlBool::Unknown.and(SqlBool::False), SqlBool::False);
    assert_eq!(SqlBool::False.and(SqlBool::Unknown), SqlBool::False);
    assert_eq!(SqlBool::Unknown.and(SqlBool::Unknown), SqlBool::Unknown);
}

#[test]
fn or_truth_table() {
    assert_eq!(SqlBool::False.or(SqlBool::False), SqlBool::False);
    assert_eq!(SqlBool::False.or(SqlBool::Unknown), SqlBool::Unknown);
    assert_eq!(SqlBool::Unknown.or(SqlBool::True), SqlBool::True);
    assert_eq!(SqlBool::True.or(SqlBool::Unknown), SqlBool::True);
    assert_eq!(SqlBool::Unknown.or(SqlBool::Unknown), SqlBool::Unknown);
}

#[test]
fn de_morgan_holds_on_every_pair() {
    for a in ALL {
        for b in ALL {
            assert_eq!(!(a.and(b)), (!a).or(!b));
            assert_eq!(!(a.or(b)), (!a).and(!b));
        }
    }
}

#[test]
fn and_or_commute_and_not_is_involutive() {
    for a in ALL {
        assert_eq!(!!a, a);
        for b in ALL {
            assert_eq!(a.and(b), b.and(a));
            assert_eq!(a.or(b), b.or(a));
        }
    }
}

#[test]
fn from_bool_agrees_with_rust_logic() {
    for x in [true, false] {
        for y in [true, false] {
            assert_eq!(SqlBool::from(x).and(SqlBool::from(y)), SqlBool::from(x && y));
            assert_eq!(SqlBool::from(x).or(SqlBool::from(y)), SqlBool::from(x || y));
        }
    }
}

#[test]
fn value_logic_uses_truth_values() {
    let t = SqlValue::Bool(true);
    let f = SqlValue::Bool(false);
    assert_eq!(t.and(&SqlValue::Null), Ok(SqlBool::Unknown));
    assert_eq!(f.and(&SqlValue::Null), Ok(SqlBool::False));
    assert_eq!(t.or(&SqlValue::Null), Ok(SqlBool::True));
    assert_eq!(SqlValue::Null.to_sql_bool(), Ok(SqlBool::Unknown));
}

#[test]
fn value_logic_rejects_non_booleans() {
    let r = SqlValue::Int(1).and(&SqlValue::Bool(true));
    match r {
        Err(sql::DomainError::EvaluationError(m)) => {
            assert_eq!(m, "Operasi logika membutuhkan tipe BOOLEAN, tetapi mendapatkan Int")
        }
        other => panic!("unexpected {:?}", other),
    }
    assert!(SqlValue::Bool(true).or(&SqlValue::Text("x".to_string())).is_err());
}

#[test]
fn truth_value_becomes_a_value() {
    assert_eq!(SqlValue::from(SqlBool::True), SqlValue::Bool(true));
    assert_eq!(SqlValue::from(SqlBool::False), SqlValue::Bool(false));
    assert_eq!(SqlValue::from(SqlBool::Unknown), SqlValue::Null);
    assert_eq!(SqlValue::from(&SqlBool::Unknown), SqlValue::Null);
}
