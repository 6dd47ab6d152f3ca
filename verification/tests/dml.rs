use sql::catalog::dml_action::{execute_dml, handle_delete, handle_insert, handle_update, DmlAction};
use sql::catalog::table::Table;
use sql::catalog::DmlResult;
use sql::domain::id::{ColumnId, RowId, TableId};
use sql::domain::types::{ArithOp, FloatOperand, ValueOrder};
use sql::{BinaryOp, ColumnDef, DomainError, Expr, Schema, SqlType, SqlValue, TableConstraint};

fn operand(x: FloatOperand) -> f64 {
    match x {
        FloatOperand::Bits(b) => f64::from_bits(b),
        FloatOperand::Int(n) => n as f64,
    }
}

fn fo(a: FloatOperand, b: FloatOperand) -> ValueOrder {
    let (x, y) = (operand(a), operand(b));
    if x < y {
        ValueOrder::Less
    } else if x > y {
        ValueOrder::Greater
    } else {
        ValueOrder::Equal
    }
}

fn fa(op: ArithOp, a: FloatOperand, b: FloatOperand) -> u64 {
    let (x, y) = (operand(a), operand(b));
    match op {
        ArithOp::Add => x + y,
        ArithOp::Sub => x - y,
        ArithOp::Mul => x * y,
        ArithOp::Div => x / y,
    }
    .to_bits()
}

fn items() -> Table {
    let schema = Schema::with_table_constraints(
        vec![
            ColumnDef::with_id(ColumnId(1), "id", SqlType::Int, false),
            ColumnDef::with_id(ColumnId(2), "qty", SqlType::Int, true),
        ],
        vec![TableConstraint::Check(Expr::binary(
            Expr::col(ColumnId(1)),
            BinaryOp::Gt,
            Expr::lit(SqlValue::Int(0)),
        ))],
    );
    Table::new(TableId(7), "items", schema)
}

fn vals(t: &Table) -> Vec<Vec<SqlValue>> {
    t.rows().iter().map(|r| r.values().to_vec()).collect()
}

#[test]
fn insert_fills_missing_values_and_numbers_rows() {
    let mut t = items();
    assert_eq!(t.id(), TableId(7));
    assert_eq!(t.name(), "items");
    let n = handle_insert(&mut t, vec![vec![SqlValue::Int(1)], vec![SqlValue::Int(2), SqlValue::Int(5)]], &fo, &fa);
    assert_eq!(n, Ok(2));
    assert_eq!(
        vals(&t),
        vec![vec![SqlValue::Int(1), SqlValue::Null], vec![SqlValue::Int(2), SqlValue::Int(5)]]
    );
    assert_eq!(t.rows()[0].id(), RowId(1));
    assert_eq!(t.rows()[1].id(), RowId(2));
    assert_eq!(handle_insert(&mut t, vec![], &fo, &fa), Ok(0));
}

#[test]
fn insert_is_all_or_nothing() {
    let mut t = items();
    let bad = vec![vec![SqlValue::Int(3)], vec![SqlValue::Int(-1)]];
    match handle_insert(&mut t, bad, &fo, &fa) {
        Err(DomainError::EvaluationError(m)) => assert_eq!(m, "Pelanggaran CHECK constraint pada tabel"),
        other => panic!("unexpected {:?}", other),
    }
    assert!(t.rows().is_empty());
    // The id drawn for the row before the refused one stays used.
    assert_eq!(t.insert(vec![SqlValue::Int(4)], &fo, &fa), Ok(1));
    assert_eq!(t.rows()[0].id(), RowId(2));
    assert_eq!(t.insert_batch(vec![vec![SqlValue::Int(5)], vec![SqlValue::Int(6)]], &fo, &fa), Ok(2));
    assert_eq!(t.rows().len(), 3);
}

#[test]
fn delete_removes_matching_rows_in_order() {
    let mut t = items();
    let rows = (1..=5).map(|i| vec![SqlValue::Int(i), SqlValue::Int(i * 10)]).collect();
    assert_eq!(handle_insert(&mut t, rows, &fo, &fa), Ok(5));
    let even = Expr::binary(Expr::col(ColumnId(2)), BinaryOp::Gt, Expr::lit(SqlValue::Int(25)));
    assert_eq!(handle_delete(&mut t, Some(&even), &fo, &fa), Ok(3));
    assert_eq!(
        vals(&t),
        vec![vec![SqlValue::Int(1), SqlValue::Int(10)], vec![SqlValue::Int(2), SqlValue::Int(20)]]
    );
    let bad = Expr::not(Expr::col(ColumnId(1)));
    assert!(handle_delete(&mut t, Some(&bad), &fo, &fa).is_err());
    assert_eq!(t.rows().len(), 2);
    assert_eq!(handle_delete(&mut t, None, &fo, &fa), Ok(2));
    assert!(t.rows().is_empty());
}

#[test]
fn update_changes_selected_rows_only() {
    let mut t = items();
    let rows = (1..=3).map(|i| vec![SqlValue::Int(i), SqlValue::Int(i)]).collect();
    assert_eq!(handle_insert(&mut t, rows, &fo, &fa), Ok(3));
    let double = vec![(
        ColumnId(2),
        Expr::binary(Expr::col(ColumnId(2)), BinaryOp::Mul, Expr::lit(SqlValue::Int(2))),
    )];
    let from_two = Expr::binary(Expr::col(ColumnId(1)), BinaryOp::GtEq, Expr::lit(SqlValue::Int(2)));
    assert_eq!(handle_update(&mut t, &double, Some(&from_two), &fo, &fa), Ok(2));
    assert_eq!(
        vals(&t),
        vec![
            vec![SqlValue::Int(1), SqlValue::Int(1)],
            vec![SqlValue::Int(2), SqlValue::Int(4)],
            vec![SqlValue::Int(3), SqlValue::Int(6)],
        ]
    );
    assert_eq!(t.rows()[1].id(), RowId(2));
    // An assignment that leaves a value as it is changes no row.
    let same = vec![(ColumnId(1), Expr::col(ColumnId(1)))];
    assert_eq!(handle_update(&mut t, &same, None, &fo, &fa), Ok(0));
    assert_eq!(handle_update(&mut t, &[], None, &fo, &fa), Ok(0));
}

#[test]
fn update_is_all_or_nothing() {
    let mut t = items();
    let rows = (1..=3).map(|i| vec![SqlValue::Int(i), SqlValue::Null]).collect();
    assert_eq!(handle_insert(&mut t, rows, &fo, &fa), Ok(3));
    let shift = vec![(
        ColumnId(1),
        Expr::binary(Expr::col(ColumnId(1)), BinaryOp::Sub, Expr::lit(SqlValue::Int(2))),
    )];
    match handle_update(&mut t, &shift, None, &fo, &fa) {
        Err(DomainError::EvaluationError(m)) => assert_eq!(m, "Pelanggaran CHECK constraint pada tabel"),
        other => panic!("unexpected {:?}", other),
    }
    assert_eq!(vals(&t)[0], vec![SqlValue::Int(1), SqlValue::Null]);
    let text = vec![(ColumnId(2), Expr::lit(SqlValue::Text("x".to_string())))];
    assert_eq!(
        handle_update(&mut t, &text, None, &fo, &fa),
        Err(DomainError::TypeMismatch { expected: "Int".to_string(), found: "Text".to_string() })
    );
}

#[test]
fn execute_dml_dispatches() {
    let mut t = items();
    let ins = DmlAction::Insert { rows: vec![vec![SqlValue::Int(1)], vec![SqlValue::Int(2)]] };
    assert_eq!(execute_dml(&mut t, ins, &fo, &fa), Ok(DmlResult::Inserted(2)));
    let upd = DmlAction::Update {
        assignments: vec![(ColumnId(2), Expr::lit(SqlValue::Int(9)))],
        predicate: None,
    };
    assert_eq!(execute_dml(&mut t, upd, &fo, &fa), Ok(DmlResult::Updated(2)));
    let del = DmlAction::Delete {
        predicate: Some(Expr::binary(Expr::col(ColumnId(1)), BinaryOp::Eq, Expr::lit(SqlValue::Int(1)))),
    };
    assert_eq!(execute_dml(&mut t, del, &fo, &fa), Ok(DmlResult::Deleted(1)));
    assert_eq!(vals(&t), vec![vec![SqlValue::Int(2), SqlValue::Int(9)]]);
    t.set_name("stock");
    assert_eq!(t.name(), "stock");
    assert_eq!(t.schema().columns().len(), 2);
}

#[test]
fn a_condition_false_everywhere_changes_nothing() {
    let mut t = items();
    let rows = (1..=2).map(|i| vec![SqlValue::Int(i), SqlValue::Int(i)]).collect();
    assert_eq!(handle_insert(&mut t, rows, &fo, &fa), Ok(2));
    let none = Expr::binary(Expr::col(ColumnId(1)), BinaryOp::Gt, Expr::lit(SqlValue::Int(10)));
    let set = vec![(ColumnId(2), Expr::lit(SqlValue::Int(0)))];
    assert_eq!(handle_update(&mut t, &set, Some(&none), &fo, &fa), Ok(0));
    assert_eq!(handle_delete(&mut t, Some(&none), &fo, &fa), Ok(0));
    assert_eq!(
        vals(&t),
        vec![vec![SqlValue::Int(1), SqlValue::Int(1)], vec![SqlValue::Int(2), SqlValue::Int(2)]]
    );
}

#[test]
fn the_table_runs_statements_itself() {
    let mut t = items();
    let ins = DmlAction::Insert { rows: vec![vec![SqlValue::Int(3), SqlValue::Int(1)]] };
    assert_eq!(t.execute_dml(ins, &fo, &fa), Ok(DmlResult::Inserted(1)));
    assert_eq!(t.execute_dml(DmlAction::Delete { predicate: None }, &fo, &fa), Ok(DmlResult::Deleted(1)));
    assert!(t.rows().is_empty());
}

fn floats() -> Table {
    let schema = Schema::new(vec![
        ColumnDef::with_id(ColumnId(1), "id", SqlType::Int, false),
        ColumnDef::with_id(ColumnId(2), "x", SqlType::Float, true),
    ])
    .unwrap();
    Table::new(TableId(8), "floats", schema)
}

#[test]
fn update_compares_floats_as_numbers() {
    let mut t = floats();
    let rows = vec![
        vec![SqlValue::Int(1), SqlValue::Float(0.0f64.to_bits())],
        vec![SqlValue::Int(2), SqlValue::Float(f64::NAN.to_bits())],
    ];
    assert_eq!(handle_insert(&mut t, rows, &fo, &fa), Ok(2));
    let neg_zero = vec![(ColumnId(2), Expr::lit(SqlValue::Float((-0.0f64).to_bits())))];
    let first = Expr::binary(Expr::col(ColumnId(1)), BinaryOp::Eq, Expr::lit(SqlValue::Int(1)));
    assert_eq!(handle_update(&mut t, &neg_zero, Some(&first), &fo, &fa), Ok(0));
    assert_eq!(t.rows()[0].values()[1], SqlValue::Float(0.0f64.to_bits()));
    let other_nan = f64::from_bits(f64::NAN.to_bits() ^ 1);
    let nan = vec![(ColumnId(2), Expr::lit(SqlValue::Float(other_nan.to_bits())))];
    let second = Expr::binary(Expr::col(ColumnId(1)), BinaryOp::Eq, Expr::lit(SqlValue::Int(2)));
    assert_eq!(handle_update(&mut t, &nan, Some(&second), &fo, &fa), Ok(0));
    let one = vec![(ColumnId(2), Expr::lit(SqlValue::Float(1.0f64.to_bits())))];
    assert_eq!(handle_update(&mut t, &one, None, &fo, &fa), Ok(2));
    assert!(SqlValue::Float(0.0f64.to_bits()).equals(&SqlValue::Float((-0.0f64).to_bits())));
    assert!(!SqlValue::Float(0.0f64.to_bits()).equals(&SqlValue::Float(1.0f64.to_bits())));
}

#[test]
fn inserted_rows_get_the_next_ids_in_order() {
    let mut t = items();
    assert_eq!(t.insert(vec![SqlValue::Int(1)], &fo, &fa), Ok(1));
    assert_eq!(t.rows()[0].id(), RowId(1));
    assert_eq!(t.rows()[0].values(), &[SqlValue::Int(1), SqlValue::Null]);
    assert_eq!(t.insert_batch(vec![vec![SqlValue::Int(2)], vec![SqlValue::Int(3), SqlValue::Int(4)]], &fo, &fa), Ok(2));
    let ids: Vec<RowId> = t.rows().iter().map(|r| r.id()).collect();
    assert_eq!(ids, vec![RowId(1), RowId(2), RowId(3)]);
    assert_eq!(t.rows()[2].values(), &[SqlValue::Int(3), SqlValue::Int(4)]);
    let gone = Expr::binary(Expr::col(ColumnId(1)), BinaryOp::Eq, Expr::lit(SqlValue::Int(2)));
    assert_eq!(handle_delete(&mut t, Some(&gone), &fo, &fa), Ok(1));
    assert_eq!(t.insert(vec![SqlValue::Int(5)], &fo, &fa), Ok(1));
    let ids: Vec<RowId> = t.rows().iter().map(|r| r.id()).collect();
    assert_eq!(ids, vec![RowId(1), RowId(3), RowId(4)]);
}
