use sql::domain::expr::{eval_expr, eval_where, try_eval_expr};
use sql::domain::id::{ColumnId, RowId};
use sql::domain::types::{ArithOp, FloatOperand, ValueOrder};
use sql::{BinaryOp, ColumnDef, DomainError, Expr, Row, Schema, SqlType, SqlValue, Table, TableConstraint};

fn operand(x: FloatOperand) -> f64 {
    match x {
        FloatOperand::Bits(b) => f64::from_bits(b),
        FloatOperand::Int(n) => n as f64,
    }
}

fn float_order(a: FloatOperand, b: FloatOperand) -> ValueOrder {
    let (x, y) = (operand(a), operand(b));
    if x < y {
        ValueOrder::Less
    } else if x > y {
        ValueOrder::Greater
    } else {
        ValueOrder::Equal
    }
}

fn float_arith(op: ArithOp, a: FloatOperand, b: FloatOperand) -> u64 {
    let (x, y) = (operand(a), operand(b));
    let r = match op {
        ArithOp::Add => x + y,
        ArithOp::Sub => x - y,
        ArithOp::Mul => x * y,
        ArithOp::Div => x / y,
    };
    r.to_bits()
}

fn people() -> Schema {
    Schema::with_table_constraints(
        vec![
            ColumnDef::with_id(ColumnId(1), "id", SqlType::Int, false),
            ColumnDef::with_id(ColumnId(2), "name", SqlType::Text, true),
            ColumnDef::with_id(ColumnId(3), "score", SqlType::Float, true),
        ],
        vec![TableConstraint::Check(Expr::binary(
            Expr::col(ColumnId(1)),
            BinaryOp::Gt,
            Expr::lit(SqlValue::Int(0)),
        ))],
    )
}

fn row(id: i64, name: Option<&str>, score: Option<f64>) -> Row {
    Row::new(vec![
        SqlValue::Int(id),
        name.map(|n| SqlValue::Text(n.to_string())).unwrap_or(SqlValue::Null),
        score.map(|s| SqlValue::Float(s.to_bits())).unwrap_or(SqlValue::Null),
    ])
}

fn eval(e: &Expr, r: &Row) -> Result<SqlValue, DomainError> {
    eval_expr(e, &people(), r, &float_order, &float_arith)
}

fn message(e: DomainError) -> String {
    match e {
        DomainError::EvaluationError(m) => m,
        other => panic!("unexpected {:?}", other),
    }
}

#[test]
fn columns_are_found_by_id() {
    let s = people();
    assert_eq!(s.index_of_id(ColumnId(2)), Some(1));
    assert_eq!(s.index_of_id(ColumnId(9)), None);
    assert_eq!(s.get_column_by_id(ColumnId(3)).map(|c| c.name.as_str()), Some("score"));
    assert!(s.get_column_by_id(ColumnId(9)).is_none());
    let r = row(5, Some("ana"), None);
    assert_eq!(eval(&Expr::col(ColumnId(2)), &r), Ok(SqlValue::Text("ana".to_string())));
    assert_eq!(eval(&Expr::lit(SqlValue::Int(4)), &r), Ok(SqlValue::Int(4)));
}

#[test]
fn a_missing_column_is_an_evaluation_error() {
    let r = row(5, None, None);
    assert_eq!(
        message(eval(&Expr::col(ColumnId(7)), &r).unwrap_err()),
        "ColumnId 'ColumnId(7)' tidak ditemukan di skema saat evaluasi"
    );
    let short = Row::new(vec![SqlValue::Int(1)]);
    assert_eq!(message(eval(&Expr::col(ColumnId(3)), &short).unwrap_err()), "Row index out of bounds");
}

#[test]
fn not_and_null_tests() {
    let r = row(5, None, None);
    let t = Expr::lit(SqlValue::Bool(true));
    assert_eq!(eval(&Expr::not(t), &r), Ok(SqlValue::Bool(false)));
    assert_eq!(eval(&Expr::not(Expr::lit(SqlValue::Null)), &r), Ok(SqlValue::Null));
    assert_eq!(
        message(eval(&Expr::not(Expr::lit(SqlValue::Int(1))), &r).unwrap_err()),
        "Operasi logika membutuhkan tipe BOOLEAN, tetapi mendapatkan Int"
    );
    assert_eq!(eval(&Expr::is_null(Expr::col(ColumnId(2))), &r), Ok(SqlValue::Bool(true)));
    assert_eq!(eval(&Expr::is_not_null(Expr::col(ColumnId(1))), &r), Ok(SqlValue::Bool(true)));
}

#[test]
fn binary_operators_over_columns() {
    let r = row(5, Some("ana"), Some(2.5));
    let plus = Expr::binary(Expr::col(ColumnId(1)), BinaryOp::Add, Expr::lit(SqlValue::Int(3)));
    assert_eq!(eval(&plus, &r), Ok(SqlValue::Int(8)));
    let half = Expr::binary(Expr::col(ColumnId(3)), BinaryOp::Mul, Expr::lit(SqlValue::Int(2)));
    assert_eq!(eval(&half, &r), Ok(SqlValue::Float(5.0f64.to_bits())));
    let cmp = Expr::binary(Expr::col(ColumnId(3)), BinaryOp::Gt, Expr::lit(SqlValue::Int(2)));
    assert_eq!(eval(&cmp, &r), Ok(SqlValue::Bool(true)));
    let both = Expr::binary(
        Expr::binary(Expr::col(ColumnId(1)), BinaryOp::Eq, Expr::lit(SqlValue::Int(5))),
        BinaryOp::And,
        Expr::lit(SqlValue::Null),
    );
    assert_eq!(eval(&both, &r), Ok(SqlValue::Null));
    let zero = Expr::binary(Expr::col(ColumnId(1)), BinaryOp::Div, Expr::lit(SqlValue::Int(0)));
    assert_eq!(message(eval(&zero, &r).unwrap_err()), "Pembagian dengan nol (Division by zero)");
}

#[test]
fn in_list_follows_three_valued_logic() {
    let r = row(5, None, None);
    let five = || Expr::col(ColumnId(1));
    let found = Expr::in_list(five(), vec![Expr::lit(SqlValue::Int(1)), Expr::lit(SqlValue::Int(5))]);
    assert_eq!(eval(&found, &r), Ok(SqlValue::Bool(true)));
    let missing = Expr::in_list(five(), vec![Expr::lit(SqlValue::Int(1))]);
    assert_eq!(eval(&missing, &r), Ok(SqlValue::Bool(false)));
    let unknown = Expr::in_list(five(), vec![Expr::lit(SqlValue::Null), Expr::lit(SqlValue::Int(2))]);
    assert_eq!(eval(&unknown, &r), Ok(SqlValue::Null));
    let null_target = Expr::in_list(Expr::col(ColumnId(2)), vec![Expr::lit(SqlValue::Int(2))]);
    assert_eq!(eval(&null_target, &r), Ok(SqlValue::Null));
    let stops = Expr::in_list(
        five(),
        vec![Expr::lit(SqlValue::Int(5)), Expr::col(ColumnId(9))],
    );
    assert_eq!(eval(&stops, &r), Ok(SqlValue::Bool(true)));
    let fails = Expr::in_list(five(), vec![Expr::col(ColumnId(9)), Expr::lit(SqlValue::Int(5))]);
    assert!(eval(&fails, &r).is_err());
}

#[test]
fn where_keeps_only_true_rows() {
    let s = people();
    let r = row(5, None, None);
    let gt = Expr::binary(Expr::col(ColumnId(1)), BinaryOp::Gt, Expr::lit(SqlValue::Int(3)));
    assert_eq!(eval_where(&gt, &s, &r, &float_order, &float_arith), Ok(true));
    let null = Expr::binary(Expr::col(ColumnId(2)), BinaryOp::Eq, Expr::lit(SqlValue::Int(3)));
    assert_eq!(eval_where(&null, &s, &r, &float_order, &float_arith), Ok(false));
    assert!(eval_where(&Expr::lit(SqlValue::Int(1)), &s, &r, &float_order, &float_arith).is_err());
}

#[test]
fn overflow_is_reported_before_it_happens() {
    let s = people();
    let r = Row::new(vec![SqlValue::Int(i64::MAX), SqlValue::Null, SqlValue::Null]);
    let e = Expr::binary(Expr::col(ColumnId(1)), BinaryOp::Add, Expr::lit(SqlValue::Int(1)));
    assert_eq!(try_eval_expr(&e, &s, &r, &float_order, &float_arith), None);
    let ok = Expr::binary(Expr::col(ColumnId(1)), BinaryOp::Sub, Expr::lit(SqlValue::Int(1)));
    assert_eq!(
        try_eval_expr(&ok, &s, &r, &float_order, &float_arith),
        Some(Ok(SqlValue::Int(i64::MAX - 1)))
    );
}

#[test]
fn validate_row_reports_each_rule() {
    let s = people();
    let check = |vals: Vec<SqlValue>| s.validate_row(&vals, &float_order, &float_arith);
    assert_eq!(check(vec![SqlValue::Int(1), SqlValue::Null, SqlValue::Null]), Ok(()));
    assert_eq!(
        message(check(vec![SqlValue::Int(1)]).unwrap_err()),
        "Jumlah kolom tidak sesuai: mengharapkan 3, ditemukan 1"
    );
    assert_eq!(
        message(check(vec![SqlValue::Null, SqlValue::Null, SqlValue::Null]).unwrap_err()),
        "Kolom 'id' tidak boleh NULL"
    );
    assert_eq!(
        check(vec![SqlValue::Int(1), SqlValue::Int(2), SqlValue::Null]),
        Err(DomainError::TypeMismatch { expected: "Text".to_string(), found: "Int".to_string() })
    );
    assert_eq!(
        message(check(vec![SqlValue::Int(0), SqlValue::Null, SqlValue::Null]).unwrap_err()),
        "Pelanggaran CHECK constraint pada tabel"
    );
}

#[test]
fn a_table_takes_valid_rows_only() {
    let mut t = Table::new("people", people());
    assert_eq!(t.name(), "people");
    assert_eq!(t.schema().columns().len(), 3);
    assert_eq!(t.insert(row(1, Some("a"), None), &float_order, &float_arith), Ok(()));
    assert!(t.insert(row(0, Some("b"), None), &float_order, &float_arith).is_err());
    assert_eq!(t.scan().unwrap().len(), 1);
    let batch = vec![row(2, None, None), row(-1, None, None)];
    assert!(t.insert_many(batch, &float_order, &float_arith).is_err());
    assert_eq!(t.scan().unwrap().len(), 1);
    let batch = vec![row(2, None, None), row(3, None, Some(1.5))];
    assert_eq!(t.insert_many(batch, &float_order, &float_arith), Ok(2));
    let rows = t.scan().unwrap();
    assert_eq!(rows.len(), 3);
    assert_eq!(rows[2].values()[2], SqlValue::Float(1.5f64.to_bits()));
    assert_eq!(rows[0].id(), RowId(0));
}

#[test]
fn a_schema_refuses_repeated_names() {
    let ok = Schema::new(vec![
        ColumnDef::with_id(ColumnId(1), "id", SqlType::Int, false),
        ColumnDef::with_id(ColumnId(2), "name", SqlType::Text, true),
    ]);
    assert!(ok.is_ok());
    assert!(ok.unwrap().table_constraints().is_empty());
    let dup = Schema::new(vec![
        ColumnDef::with_id(ColumnId(1), "Name", SqlType::Int, false),
        ColumnDef::with_id(ColumnId(2), "nAME", SqlType::Text, true),
    ]);
    assert_eq!(message(dup.unwrap_err()), "Duplikat nama kolom 'nAME' dalam skema tabel");
}

#[test]
fn add_columns_is_all_or_nothing() {
    let mut s = people();
    let bad = vec![
        ColumnDef::with_id(ColumnId(4), "age", SqlType::Int, true),
        ColumnDef::with_id(ColumnId(5), "NAME", SqlType::Text, true),
    ];
    assert_eq!(message(s.add_columns(bad).unwrap_err()), "Duplikat nama kolom 'NAME' dalam skema tabel");
    assert_eq!(s.columns().len(), 3);
    let good = vec![ColumnDef::with_id(ColumnId(4), "age", SqlType::Int, true)];
    assert_eq!(s.add_columns(good), Ok(()));
    assert_eq!(s.columns().len(), 4);
    assert_eq!(s.index_of_id(ColumnId(4)), Some(3));
}

#[test]
fn renaming_and_retyping_keep_column_ids() {
    let mut s = people();
    assert_eq!(s.rename_column(ColumnId(2), "full_name"), Ok(()));
    assert_eq!(s.columns()[1].name, "full_name");
    assert_eq!(s.index_of_id(ColumnId(2)), Some(1));
    assert_eq!(s.index_of("FULL_NAME"), Some(1));
    assert_eq!(
        message(s.rename_column(ColumnId(8), "x").unwrap_err()),
        "ColumnId 'ColumnId(8)' tidak ditemukan di Schema"
    );
    assert_eq!(s.modify_column_type(ColumnId(3), SqlType::Int), Ok(()));
    assert_eq!(s.columns()[2].sql_type, SqlType::Int);
    assert_eq!(s.index_of_id(ColumnId(3)), Some(2));
    assert_eq!(
        message(s.modify_column_type(ColumnId(8), SqlType::Int).unwrap_err()),
        "ColumnId 'ColumnId(8)' tidak ditemukan pada Schema"
    );
}
