use sql::catalog::id::{ColumnId as CatColumnId, DatabaseId as CatDatabaseId, IdGenerator as CatIds};
use sql::catalog::id::{RowId as CatRowId, TableId as CatTableId, UserId};
use sql::catalog::registry::SymbolRegistry;
use sql::domain::id::{ColumnId, IdGenerator, RowId, TableId};
use sql::DomainError;

#[test]
fn single_counter_hands_out_increasing_ids() {
    let mut g = IdGenerator::new(10);
    assert_eq!(g.current_u64(), 10);
    assert_eq!(g.next_u64(), 10);
    assert_eq!(g.next_row_id(), RowId(11));
    assert_eq!(g.next_table_id(), TableId(12));
    assert_eq!(g.next_column_id(), ColumnId(13));
    assert_eq!(g.current_row_id(), RowId(14));
    assert_eq!(IdGenerator::default().current_u64(), 1);
}

#[test]
fn catalog_counters_are_separate() {
    let mut g = CatIds::new(1);
    assert_eq!(g.next_table_id(), CatTableId(1));
    assert_eq!(g.next_table_id(), CatTableId(2));
    assert_eq!(g.next_user_id(), UserId(1));
    assert_eq!(g.next_database_id(), CatDatabaseId(1));
    let t = CatTableId(7);
    let u = CatTableId(8);
    assert_eq!(g.next_column_id(t), CatColumnId(1));
    assert_eq!(g.next_column_id(t), CatColumnId(2));
    assert_eq!(g.next_column_id(u), CatColumnId(1));
    assert_eq!(g.next_column_id(t), CatColumnId(3));
}

#[test]
fn catalog_counters_reset_and_forget() {
    let mut g = CatIds::new(5);
    g.next_table_id();
    g.next_table_id();
    g.reset_table_if_empty(false);
    assert_eq!(g.next_table_id(), CatTableId(7));
    g.reset_table_if_empty(true);
    assert_eq!(g.next_table_id(), CatTableId(5));
    g.next_user_id();
    g.reset_user_if_empty(true);
    assert_eq!(g.next_user_id(), UserId(5));
    g.next_database_id();
    g.reset_database_if_empty(true);
    assert_eq!(g.next_database_id(), CatDatabaseId(5));
    let t = CatTableId(1);
    g.next_column_id(t);
    g.next_column_id(t);
    g.remove_table_counter(t);
    assert_eq!(g.next_column_id(t), CatColumnId(5));
    g.reset_column_counter_if_empty(t, false);
    assert_eq!(g.next_column_id(t), CatColumnId(6));
    g.reset_column_counter_if_empty(t, true);
    assert_eq!(g.next_column_id(t), CatColumnId(5));
}

#[test]
fn table_counter_runs_up_to_its_limit() {
    let mut g = CatIds::new(u32::MAX - 1);
    assert_eq!(g.next_table_id(), CatTableId(u32::MAX - 1));
    assert_eq!(g.next_table_id(), CatTableId(u32::MAX));
    let mut h = CatIds::new(u32::MAX);
    assert_eq!(h.next_user_id(), UserId(u32::MAX));
    assert_eq!(h.next_database_id(), CatDatabaseId(u32::MAX));
    h.reset_table_if_empty(true);
    assert_eq!(h.next_table_id(), CatTableId(u32::MAX));
}

#[test]
fn ids_convert() {
    assert_eq!(CatRowId(5).as_u64(), 5);
    assert_eq!(CatIds::default().next_table_id(), CatTableId(1));
}

#[test]
fn columns_register_once_per_table_ignoring_case() {
    let mut r = SymbolRegistry::new();
    let t = TableId(1);
    let a = r.register_column(t, "Name");
    assert_eq!(a, ColumnId(1));
    assert_eq!(r.register_column(t, "NAME"), a);
    let b = r.register_column(TableId(2), "name");
    assert_eq!(b, ColumnId(2));
    assert_eq!(r.get_column_id(t, "nAmE"), Some(a));
    assert_eq!(r.get_column_name(a), Some("Name"));
    assert_eq!(r.get_column_id(TableId(3), "name"), None);
}

#[test]
fn columns_unregister_and_rename() {
    let mut r = SymbolRegistry::new();
    let t = TableId(1);
    let a = r.register_column(t, "a");
    let b = r.register_column(t, "b");
    assert_eq!(r.rename_column(t, "A", "Alpha"), Ok(()));
    assert_eq!(r.get_column_id(t, "alpha"), Some(a));
    assert_eq!(r.get_column_id(t, "a"), None);
    assert_eq!(r.get_column_name(a), Some("Alpha"));
    match r.rename_column(t, "alpha", "B") {
        Err(DomainError::ColumnAlreadyExists(m)) => {
            assert_eq!(m, "Nama kolom baru 'B' sudah terpakai di Registry")
        }
        other => panic!("unexpected {:?}", other),
    }
    assert_eq!(r.get_column_id(t, "alpha"), Some(a));
    assert_eq!(r.rename_column(t, "alpha", "ALPHA"), Ok(()));
    assert_eq!(r.get_column_name(a), Some("ALPHA"));
    match r.rename_column(t, "zzz", "y") {
        Err(DomainError::ColumnNotFound(m)) => assert_eq!(m, "Kolom 'zzz' tidak ditemukan di Registry"),
        other => panic!("unexpected {:?}", other),
    }
    assert_eq!(r.unregister_column(t, "B"), Ok(b));
    assert_eq!(r.get_column_name(b), None);
    assert!(matches!(r.unregister_column(t, "b"), Err(DomainError::ColumnNotFound(_))));
}

#[test]
fn tables_register_unregister_and_rename() {
    let mut r = SymbolRegistry::new();
    let users = r.register_table("Users").unwrap();
    assert_eq!(users, TableId(1));
    assert_eq!(
        r.register_table("USERS"),
        Err(DomainError::TableAlreadyExists("USERS".to_string()))
    );
    let orders = r.register_table("orders").unwrap();
    assert_eq!(r.get_table_id("users"), Some(users));
    assert_eq!(r.get_table_name(orders), Some("orders"));
    let c = r.register_column(users, "id");
    let d = r.register_column(orders, "id");
    assert_eq!(r.rename_table("ORDERS", "Sales"), Ok(()));
    assert_eq!(r.get_table_id("sales"), Some(orders));
    assert_eq!(r.get_table_name(orders), Some("Sales"));
    assert!(matches!(r.rename_table("sales", "users"), Err(DomainError::TableAlreadyExists(_))));
    assert!(matches!(r.rename_table("nope", "x"), Err(DomainError::TableNotFound(_))));
    assert_eq!(r.unregister_table("users"), Ok(users));
    assert_eq!(r.get_table_id("users"), None);
    assert_eq!(r.get_column_name(c), None);
    assert_eq!(r.get_column_id(users, "id"), None);
    assert_eq!(r.get_column_name(d), Some("id"));
    match r.unregister_table("users") {
        Err(DomainError::TableNotFound(m)) => assert_eq!(m, "Table 'users' tidak ditemukan di Registry"),
        other => panic!("unexpected {:?}", other),
    }
}

#[test]
fn display_name_finds_the_id_again() {
    let mut r = SymbolRegistry::new();
    let t = r.register_table("Items").unwrap();
    let c = r.register_column(t, "Price");
    let shown = r.get_column_name(c).unwrap().to_string();
    assert_eq!(r.get_column_id(t, &shown), Some(c));
    let tn = r.get_table_name(t).unwrap().to_string();
    assert_eq!(r.get_table_id(&tn), Some(t));
}

#[test]
fn column_ids_of_a_table_run_on_from_the_start() {
    let mut g = CatIds::new(3);
    let t = CatTableId(1);
    let u = CatTableId(2);
    for k in 0..5u32 {
        assert_eq!(g.next_column_id(t), CatColumnId(3 + k));
    }
    assert_eq!(g.next_column_id(u), CatColumnId(3));
    assert_eq!(g.next_table_id(), CatTableId(3));
}
