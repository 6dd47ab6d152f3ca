use sql::domain::id::RowId;
use sql::{BinaryOp, ColumnDef, DomainError, Expr, Row, Schema, SqlType, SqlValue, TableConstraint};

fn schema() -> Schema {
    Schema::with_table_constraints(
        vec![
            ColumnDef::new("id", SqlType::Int, false),
            ColumnDef::new("Name", SqlType::Text, true),
            ColumnDef::new("name", SqlType::Text, true),
        ],
        vec![TableConstraint::PrimaryKey(vec!["id".to_string()])],
    )
}

#[test]
fn index_of_ignores_ascii_case_and_takes_the_first() {
    let s = schema();
    assert_eq!(s.index_of("ID"), Some(0));
    assert_eq!(s.index_of("name"), Some(1));
    assert_eq!(s.index_of("missing"), None);
}

#[test]
fn index_of_accepts_qualified_names() {
    let s = schema();
    assert_eq!(s.index_of("users.name"), Some(1));
    assert_eq!(s.index_of("users.id"), Some(0));
    assert_eq!(s.index_of("a.b.id"), None);
    assert_eq!(s.index_of("users.missing"), None);
}

#[test]
fn schema_accessors() {
    let s = schema();
    assert_eq!(s.columns().len(), 3);
    assert_eq!(s.columns()[1].name, "Name");
    assert_eq!(s.table_constraints(), &[TableConstraint::PrimaryKey(vec!["id".to_string()])]);
    let c = ColumnDef::new("x", SqlType::Bool, true);
    assert_eq!(c.sql_type, SqlType::Bool);
    assert!(c.nullable);
}

#[test]
fn rows_hold_values_and_ids() {
    let mut r = Row::new(vec![SqlValue::Int(1), SqlValue::Text("a".to_string())]);
    assert_eq!(r.id(), RowId(0));
    r.set_id(RowId(9));
    assert_eq!(r.id(), RowId(9));
    assert_eq!(r.get_by_index(1), Some(&SqlValue::Text("a".to_string())));
    assert_eq!(r.get_by_index(2), None);
    r.push(SqlValue::Null);
    assert_eq!(r.values().len(), 3);
    assert_eq!(r.remove(0), Some(SqlValue::Int(1)));
    assert_eq!(r.remove(5), None);
    assert_eq!(r.values(), &[SqlValue::Text("a".to_string()), SqlValue::Null]);
    r.values_mut()[1] = SqlValue::Bool(true);
    let (id, values) = r.clone().into_parts();
    assert_eq!(id, RowId(9));
    assert_eq!(values, vec![SqlValue::Text("a".to_string()), SqlValue::Bool(true)]);
    assert_eq!(r.into_values().len(), 2);
}

#[test]
fn rows_from_parts() {
    let r = Row::from(vec![SqlValue::Int(1)]);
    assert_eq!(r.id(), RowId(0));
    let r = Row::from((RowId(4), vec![SqlValue::Int(1)]));
    assert_eq!(r, Row::with_id(RowId(4), vec![SqlValue::Int(1)]));
}

#[test]
fn get_by_name_uses_the_schema() {
    let s = schema();
    let r = Row::new(vec![SqlValue::Int(1), SqlValue::Text("a".to_string()), SqlValue::Null]);
    assert_eq!(r.get_by_name(&s, "t.NAME"), Ok(&SqlValue::Text("a".to_string())));
    match r.get_by_name(&s, "nope") {
        Err(DomainError::ColumnNotFound(m)) => {
            assert_eq!(m, "Kolom 'nope' tidak ditemukan pada skema")
        }
        other => panic!("unexpected {:?}", other),
    }
    let short = Row::new(vec![SqlValue::Int(1)]);
    match short.get_by_name(&s, "name") {
        Err(DomainError::EvaluationError(m)) => assert_eq!(m, "Data pada indeks 1 tidak ditemukan"),
        other => panic!("unexpected {:?}", other),
    }
}

#[test]
fn expression_builders() {
    let e = Expr::binary(Expr::lit(SqlValue::Int(1)), BinaryOp::Add, Expr::lit(SqlValue::Int(2)));
    assert_eq!(
        e,
        Expr::Binary {
            left: Box::new(Expr::Literal(SqlValue::Int(1))),
            op: BinaryOp::Add,
            right: Box::new(Expr::Literal(SqlValue::Int(2))),
        }
    );
    assert_eq!(Expr::not(Expr::lit(SqlValue::Null)), Expr::Not(Box::new(Expr::Literal(SqlValue::Null))));
    assert_eq!(
        Expr::is_null(Expr::col(sql::domain::ColumnId(3))),
        Expr::IsNull(Box::new(Expr::Column(sql::domain::ColumnId(3))))
    );
    assert_eq!(
        Expr::is_not_null(Expr::lit(SqlValue::Int(0))),
        Expr::IsNotNull(Box::new(Expr::Literal(SqlValue::Int(0))))
    );
    assert_eq!(
        Expr::in_list(Expr::lit(SqlValue::Int(0)), vec![]),
        Expr::InList { expr: Box::new(Expr::Literal(SqlValue::Int(0))), list: vec![] }
    );
}

#[test]
fn rows_index_by_position() {
    let r = Row::new(vec![SqlValue::Int(4), SqlValue::Null]);
    assert_eq!(r[0], SqlValue::Int(4));
    assert_eq!(r[1], SqlValue::Null);
}
