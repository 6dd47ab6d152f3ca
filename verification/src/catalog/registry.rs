use std::collections::HashMap;
use vstd::prelude::*;

use crate::catalog::name_index::{id_in_scope, NameIndex};
use crate::domain::id::{ColumnId, IdGenerator, TableId};
use crate::error::DomainError;
use crate::text::{str_to_lowercase, to_lowercase};

verus! {

broadcast use vstd::std_specs::hash::group_hash_axioms;

/// `prefix`, then `name`, then `suffix`.
fn quoted(prefix: &str, name: &str, suffix: &str) -> (r: String)
    ensures
        r@ == prefix@ + name@ + suffix@,
{
    let mut msg = prefix.to_owned();
    msg.append(name);
    msg.append(suffix);
    msg
}

/// The scope under which table names are bound.
pub const TABLE_SCOPE: u32 = 0;

/// Names of tables and columns, and the ids they stand for, in both directions. Lookups by
/// name ignore case; the display name of an id keeps the case it was registered with.
#[derive(Clone)]
pub struct SymbolRegistry {
    column_id_gen: IdGenerator,
    table_id_gen: IdGenerator,
    col_name_to_id: NameIndex,
    col_id_to_name: HashMap<u32, String>,
    table_name_to_id: NameIndex,
    table_id_to_name: HashMap<u32, String>,
}

/// The registry as a model. `columns` maps (table id, lowercase column name) to a column
/// id, `tables` maps (scope 0, lowercase table name) to a table id; `column_names` and
/// `table_names` give the display names of ids. `next_column` and `next_table` are the ids
/// that the next registrations will receive.
pub struct SymbolRegistryView {
    pub columns: Map<(u32, Seq<char>), u32>,
    pub column_names: Map<u32, String>,
    pub tables: Map<(u32, Seq<char>), u32>,
    pub table_names: Map<u32, String>,
    pub next_column: u64,
    pub next_table: u64,
}

/// Binding a fresh name to the next id keeps the correspondence.
proof fn lemma_bijection_insert(
    names: Map<(u32, Seq<char>), u32>,
    ids: Map<u32, String>,
    next: u64,
    k: (u32, Seq<char>),
    s: String,
)
    requires
        bijection(names, ids, next),
        !names.contains_key(k),
        next <= u32::MAX,
    ensures
        bijection(names.insert(k, next as u32), ids.insert(next as u32, s), (next + 1) as u64),
{
    let id = next as u32;
    let n2 = names.insert(k, id);
    let i2 = ids.insert(id, s);
    assert(!ids.contains_key(id)) by {
        if ids.contains_key(id) {
            let q = choose|q: (u32, Seq<char>)| #[trigger] names.contains_key(q) && names[q] == id;
        }
    }
    assert forall|id2: u32| #[trigger] i2.contains_key(id2) implies exists|q: (u32, Seq<char>)|
        #[trigger] n2.contains_key(q) && n2[q] == id2 by {
        if id2 == id {
            assert(n2.contains_key(k));
        } else {
            let q = choose|q: (u32, Seq<char>)| #[trigger] names.contains_key(q) && names[q] == id2;
            assert(n2.contains_key(q));
        }
    }
    assert forall|k1: (u32, Seq<char>), k2: (u32, Seq<char>)|
        #[trigger] n2.contains_key(k1) && #[trigger] n2.contains_key(k2) && k1 != k2 implies n2[k1]
        != n2[k2] by {
        if k1 != k && k2 != k {
            assert(names.contains_key(k1) && names.contains_key(k2));
        } else if k1 == k {
            assert(names.contains_key(k2));
        } else {
            assert(names.contains_key(k1));
        }
    }
}

/// Unbinding a name and forgetting its id keeps the correspondence.
proof fn lemma_bijection_remove(
    names: Map<(u32, Seq<char>), u32>,
    ids: Map<u32, String>,
    next: u64,
    k: (u32, Seq<char>),
)
    requires
        bijection(names, ids, next),
        names.contains_key(k),
    ensures
        bijection(names.remove(k), ids.remove(names[k]), next),
{
    let id = names[k];
    let n2 = names.remove(k);
    let i2 = ids.remove(id);
    assert forall|q: (u32, Seq<char>)| #[trigger] n2.contains_key(q) implies i2.contains_key(n2[q])
        && n2[q] < next by {
        assert(names.contains_key(q) && names.contains_key(k) && q != k);
    }
    assert forall|id2: u32| #[trigger] i2.contains_key(id2) implies exists|q: (u32, Seq<char>)|
        #[trigger] n2.contains_key(q) && n2[q] == id2 by {
        let q = choose|q: (u32, Seq<char>)| #[trigger] names.contains_key(q) && names[q] == id2;
        assert(q != k);
        assert(n2.contains_key(q));
    }
}

/// Moving an id from one name to another, and giving it a new display name, keeps the
/// correspondence.
proof fn lemma_bijection_rekey(
    names: Map<(u32, Seq<char>), u32>,
    ids: Map<u32, String>,
    next: u64,
    old_k: (u32, Seq<char>),
    new_k: (u32, Seq<char>),
    s: String,
)
    requires
        bijection(names, ids, next),
        names.contains_key(old_k),
        !names.remove(old_k).contains_key(new_k),
    ensures
        bijection(names.remove(old_k).insert(new_k, names[old_k]), ids.insert(names[old_k], s), next),
{
    let id = names[old_k];
    let n2 = names.remove(old_k).insert(new_k, id);
    let i2 = ids.insert(id, s);
    assert forall|q: (u32, Seq<char>)| #[trigger] n2.contains_key(q) implies i2.contains_key(n2[q])
        && n2[q] < next by {
        if q != new_k {
            assert(names.contains_key(q));
        }
    }
    assert forall|id2: u32| #[trigger] i2.contains_key(id2) implies exists|q: (u32, Seq<char>)|
        #[trigger] n2.contains_key(q) && n2[q] == id2 by {
        if id2 == id {
            assert(n2.contains_key(new_k));
        } else {
            let q = choose|q: (u32, Seq<char>)| #[trigger] names.contains_key(q) && names[q] == id2;
            assert(q != old_k);
            assert(n2.contains_key(q));
        }
    }
    assert forall|k1: (u32, Seq<char>), k2: (u32, Seq<char>)|
        #[trigger] n2.contains_key(k1) && #[trigger] n2.contains_key(k2) && k1 != k2 implies n2[k1]
        != n2[k2] by {
        if k1 != new_k && k2 != new_k {
            assert(names.contains_key(k1) && names.contains_key(k2));
        } else if k1 == new_k {
            assert(names.contains_key(k2) && k2 != old_k);
        } else {
            assert(names.contains_key(k1) && k1 != old_k);
        }
    }
}

/// The ids bound to names of a scope.
pub open spec fn ids_of_scope(names: Map<(u32, Seq<char>), u32>, scope: u32) -> Set<u32> {
    Set::new(|id: u32| id_in_scope(names, scope, id))
}

/// Dropping every name of a scope and the ids they were bound to keeps the
/// correspondence.
proof fn lemma_bijection_drop_scope(
    names: Map<(u32, Seq<char>), u32>,
    ids: Map<u32, String>,
    next: u64,
    scope: u32,
)
    requires
        bijection(names, ids, next),
    ensures
        bijection(
            names.restrict(names.dom().filter(|k: (u32, Seq<char>)| k.0 != scope)),
            ids.remove_keys(ids_of_scope(names, scope)),
            next,
        ),
{
    let n2 = names.restrict(names.dom().filter(|k: (u32, Seq<char>)| k.0 != scope));
    let gone = ids_of_scope(names, scope);
    let i2 = ids.remove_keys(gone);
    assert forall|q: (u32, Seq<char>)| #[trigger] n2.contains_key(q) implies i2.contains_key(n2[q])
        && n2[q] < next by {
        assert(names.contains_key(q) && q.0 != scope);
        if gone.contains(names[q]) {
            let q2 = choose|q2: (u32, Seq<char>)|
                #[trigger] names.contains_key(q2) && q2.0 == scope && names[q2] == names[q];
            assert(q2 != q);
        }
    }
    assert forall|id2: u32| #[trigger] i2.contains_key(id2) implies exists|q: (u32, Seq<char>)|
        #[trigger] n2.contains_key(q) && n2[q] == id2 by {
        let q = choose|q: (u32, Seq<char>)| #[trigger] names.contains_key(q) && names[q] == id2;
        assert(!gone.contains(id2));
        assert(q.0 != scope);
        assert(n2.contains_key(q));
    }
    assert forall|k1: (u32, Seq<char>), k2: (u32, Seq<char>)|
        #[trigger] n2.contains_key(k1) && #[trigger] n2.contains_key(k2) && k1 != k2 implies n2[k1]
        != n2[k2] by {
        assert(names.contains_key(k1) && names.contains_key(k2));
    }
}

impl View for SymbolRegistry {
    type V = SymbolRegistryView;

    closed spec fn view(&self) -> SymbolRegistryView {
        SymbolRegistryView {
            columns: self.col_name_to_id@,
            column_names: self.col_id_to_name@,
            tables: self.table_name_to_id@,
            table_names: self.table_id_to_name@,
            next_column: self.column_id_gen@,
            next_table: self.table_id_gen@,
        }
    }
}

/// A name map and an id map describe the same bijection, and every id is below `next`.
pub open spec fn bijection(names: Map<(u32, Seq<char>), u32>, ids: Map<u32, String>, next: u64) -> bool {
    &&& forall|k: (u32, Seq<char>)| #[trigger] names.contains_key(k) ==> ids.contains_key(names[k])
        && names[k] < next
    &&& forall|id: u32| #[trigger] ids.contains_key(id) ==> exists|k: (u32, Seq<char>)|
        #[trigger] names.contains_key(k) && names[k] == id
    &&& forall|k1: (u32, Seq<char>), k2: (u32, Seq<char>)|
        #[trigger] names.contains_key(k1) && #[trigger] names.contains_key(k2) && k1 != k2
            ==> names[k1] != names[k2]
}

/// Every bound name is the lowercase form of the display name of its id.
pub open spec fn display_names_match(names: Map<(u32, Seq<char>), u32>, ids: Map<u32, String>) -> bool {
    forall|k: (u32, Seq<char>)| #[trigger] names.contains_key(k) ==> str_to_lowercase(ids[names[k]]@)
        == k.1
}

impl SymbolRegistryView {
    /// Names and ids correspond one to one, table names live in scope 0, and every id
    /// handed out lies below the next one.
    pub open spec fn wf(self) -> bool {
        &&& bijection(self.columns, self.column_names, self.next_column)
        &&& bijection(self.tables, self.table_names, self.next_table)
        &&& forall|k: (u32, Seq<char>)| #[trigger] self.tables.contains_key(k) ==> k.0 == TABLE_SCOPE
        &&& display_names_match(self.columns, self.column_names)
        &&& display_names_match(self.tables, self.table_names)
    }
}

impl SymbolRegistry {
    /// The registry's invariant.
    pub open spec fn wf(&self) -> bool {
        &&& self.indexes_wf()
        &&& self@.wf()
    }

    /// The name indexes keep each name once.
    pub closed spec fn indexes_wf(&self) -> bool {
        self.col_name_to_id.wf() && self.table_name_to_id.wf()
    }

    pub fn new() -> (r: Self)
        ensures
            r.wf(),
            r@.columns == Map::<(u32, Seq<char>), u32>::empty(),
            r@.column_names == Map::<u32, String>::empty(),
            r@.tables == Map::<(u32, Seq<char>), u32>::empty(),
            r@.table_names == Map::<u32, String>::empty(),
            r@.next_column == 1,
            r@.next_table == 1,
    {
        let r = Self {
            column_id_gen: IdGenerator::new(1),
            table_id_gen: IdGenerator::new(1),
            col_name_to_id: NameIndex::new(),
            col_id_to_name: HashMap::new(),
            table_name_to_id: NameIndex::new(),
            table_id_to_name: HashMap::new(),
        };
        assert(r@.column_names =~= Map::<u32, String>::empty());
        assert(r@.table_names =~= Map::<u32, String>::empty());
        r
    }

    // --- COLUMNS (scoped to a table) ---

    /// Registers a column of a table and returns its id; a name already registered for that
    /// table, in any case, keeps its id.
    pub fn register_column(&mut self, table_id: TableId, name: &str) -> (r: ColumnId)
        requires
            old(self).wf(),
            !old(self)@.columns.contains_key((table_id.0, str_to_lowercase(name@))) ==> old(
                self,
            )@.next_column <= u32::MAX,
        ensures
            final(self).wf(),
            ({
                let k = (table_id.0, str_to_lowercase(name@));
                if old(self)@.columns.contains_key(k) {
                    &&& r.0 == old(self)@.columns[k]
                    &&& final(self)@ == old(self)@
                } else {
                    &&& r.0 == old(self)@.next_column
                    &&& final(self)@ == (SymbolRegistryView {
                        columns: old(self)@.columns.insert(k, r.0),
                        column_names: old(self)@.column_names.insert(r.0, final(self)@.column_names[r.0]),
                        next_column: (old(self)@.next_column + 1) as u64,
                        ..old(self)@
                    })
                    &&& final(self)@.column_names[r.0]@ == name@
                }
            }),
    {
        let key = to_lowercase(name);
        if let Some(id) = self.col_name_to_id.get(table_id.0, &key) {
            return ColumnId(id);
        }
        let ghost old_view = self@;
        let new_id = self.column_id_gen.next_column_id();
        self.col_name_to_id.insert(table_id.0, key, new_id.0);
        self.col_id_to_name.insert(new_id.0, name.to_owned());
        proof {
            let k = (table_id.0, str_to_lowercase(name@));
            let v = self@;
            assert(!old_view.column_names.contains_key(new_id.0));
            assert forall|q: (u32, Seq<char>)| #[trigger] v.columns.contains_key(q) implies v.column_names.contains_key(v.columns[q])
                && v.columns[q] < v.next_column by {
                if q != k {
                    assert(old_view.columns.contains_key(q));
                }
            }
            assert forall|id: u32| #[trigger] v.column_names.contains_key(id) implies exists|q: (u32, Seq<char>)|
                #[trigger] v.columns.contains_key(q) && v.columns[q] == id by {
                if id == new_id.0 {
                    assert(v.columns.contains_key(k));
                } else {
                    assert(old_view.column_names.contains_key(id));
                    let q = choose|q: (u32, Seq<char>)| #[trigger] old_view.columns.contains_key(q) && old_view.columns[q] == id;
                    assert(v.columns.contains_key(q));
                }
            }
            assert forall|k1: (u32, Seq<char>), k2: (u32, Seq<char>)|
                #[trigger] v.columns.contains_key(k1) && #[trigger] v.columns.contains_key(k2) && k1 != k2
                implies v.columns[k1] != v.columns[k2] by {
                if k1 != k && k2 != k {
                    assert(old_view.columns.contains_key(k1) && old_view.columns.contains_key(k2));
                } else if k1 == k {
                    assert(old_view.columns.contains_key(k2));
                } else {
                    assert(old_view.columns.contains_key(k1));
                }
            }
            assert(v.column_names =~= old_view.column_names.insert(new_id.0, v.column_names[new_id.0]));
        }
        new_id
    }

    /// `register_column` where the registry can still hand out an id: `None` when the name
    /// is new for the table and every column id has been used, with nothing changed.
    pub fn try_register_column(&mut self, table_id: TableId, name: &str) -> (r: Option<ColumnId>)
        requires
            old(self).wf(),
        ensures
            final(self).wf(),
            ({
                let k = (table_id.0, str_to_lowercase(name@));
                let v = old(self)@;
                if v.columns.contains_key(k) {
                    &&& r == Some(ColumnId(v.columns[k]))
                    &&& final(self)@ == v
                } else if v.next_column > u32::MAX {
                    &&& r is None
                    &&& final(self)@ == v
                } else {
                    &&& r == Some(ColumnId(v.next_column as u32))
                    &&& final(self)@ == (SymbolRegistryView {
                        columns: v.columns.insert(k, v.next_column as u32),
                        column_names: v.column_names.insert(
                            v.next_column as u32,
                            final(self)@.column_names[v.next_column as u32],
                        ),
                        next_column: (v.next_column + 1) as u64,
                        ..v
                    })
                    &&& final(self)@.column_names[v.next_column as u32]@ == name@
                }
            }),
    {
        let key = to_lowercase(name);
        if !self.col_name_to_id.contains(table_id.0, &key) && self.column_id_gen.current_u64()
            > 0xffff_ffffu64 {
            return None;
        }
        Some(self.register_column(table_id, name))
    }

    /// The id of a table's column, by name in any case.
    pub fn get_column_id(&self, table_id: TableId, name: &str) -> (r: Option<ColumnId>)
        requires
            self.wf(),
        ensures
            match r {
                Some(c) => self@.columns.get((table_id.0, str_to_lowercase(name@))) == Some(c.0),
                None => !self@.columns.contains_key((table_id.0, str_to_lowercase(name@))),
            },
    {
        let key = to_lowercase(name);
        match self.col_name_to_id.get(table_id.0, &key) {
            Some(id) => Some(ColumnId(id)),
            None => None,
        }
    }

    /// The display name of a column id.
    pub fn get_column_name(&self, id: ColumnId) -> (r: Option<&str>)
        requires
            self.wf(),
        ensures
            match r {
                Some(s) => self@.column_names.contains_key(id.0) && s@ == self@.column_names[id.0]@,
                None => !self@.column_names.contains_key(id.0),
            },
    {
        match self.col_id_to_name.get(&id.0) {
            Some(s) => Some(s.as_str()),
            None => None,
        }
    }

    /// Unregisters one column of a table and returns the id it had.
    pub fn unregister_column(&mut self, table_id: TableId, col_name: &str) -> (r: Result<
        ColumnId,
        DomainError,
    >)
        requires
            old(self).wf(),
        ensures
            final(self).wf(),
            ({
                let k = (table_id.0, str_to_lowercase(col_name@));
                match r {
                    Ok(c) => {
                        &&& old(self)@.columns.contains_key(k)
                        &&& c.0 == old(self)@.columns[k]
                        &&& final(self)@ == (SymbolRegistryView {
                            columns: old(self)@.columns.remove(k),
                            column_names: old(self)@.column_names.remove(c.0),
                            ..old(self)@
                        })
                    },
                    Err(e) => {
                        &&& !old(self)@.columns.contains_key(k)
                        &&& final(self)@ == old(self)@
                        &&& e matches DomainError::ColumnNotFound(m) && m@ == "Kolom '"@ + col_name@ + "' tidak ditemukan di Registry"@
                    },
                }
            }),
    {
        let key = to_lowercase(col_name);
        let ghost v = self@;
        let col_id = match self.col_name_to_id.remove(table_id.0, &key) {
            Some(id) => id,
            None => {
                assert(self@.columns =~= v.columns);
                return Err(
                    DomainError::ColumnNotFound(
                        quoted("Kolom '", col_name, "' tidak ditemukan di Registry"),
                    ),
                );
            },
        };
        self.col_id_to_name.remove(&col_id);
        proof {
            let k = (table_id.0, str_to_lowercase(col_name@));
            lemma_bijection_remove(old(self)@.columns, old(self)@.column_names, old(self)@.next_column, k);
        }
        Ok(ColumnId(col_id))
    }

    /// Renames a column of a table; the column keeps its id. Fails when the old name is not
    /// registered or the new name is taken by another column of the table.
    pub fn rename_column(&mut self, table_id: TableId, old_name: &str, new_name: &str) -> (r: Result<
        (),
        DomainError,
    >)
        requires
            old(self).wf(),
        ensures
            final(self).wf(),
            ({
                let ok = (table_id.0, str_to_lowercase(old_name@));
                let nk = (table_id.0, str_to_lowercase(new_name@));
                let v = old(self)@;
                if !v.columns.contains_key(ok) {
                    &&& r is Err
                    &&& r->Err_0 matches DomainError::ColumnNotFound(m) && m@ == "Kolom '"@ + old_name@ + "' tidak ditemukan di Registry"@
                    &&& final(self)@ == v
                } else if ok != nk && v.columns.contains_key(nk) {
                    &&& r is Err
                    &&& r->Err_0 matches DomainError::ColumnAlreadyExists(m) && m@ == "Nama kolom baru '"@ + new_name@ + "' sudah terpakai di Registry"@
                    &&& final(self)@ == v
                } else {
                    &&& r is Ok
                    &&& final(self)@.columns == v.columns.remove(ok).insert(nk, v.columns[ok])
                    &&& final(self)@.column_names == v.column_names.insert(
                        v.columns[ok],
                        final(self)@.column_names[v.columns[ok]],
                    )
                    &&& final(self)@.column_names[v.columns[ok]]@ == new_name@
                    &&& final(self)@.tables == v.tables
                    &&& final(self)@.table_names == v.table_names
                    &&& final(self)@.next_column == v.next_column
                    &&& final(self)@.next_table == v.next_table
                }
            }),
    {
        let old_key = to_lowercase(old_name);
        let new_key = to_lowercase(new_name);
        let ghost v = self@;
        let id = match self.col_name_to_id.remove(table_id.0, &old_key) {
            Some(id) => id,
            None => {
                assert(self@.columns =~= v.columns);
                return Err(
                    DomainError::ColumnNotFound(
                        quoted("Kolom '", old_name, "' tidak ditemukan di Registry"),
                    ),
                );
            },
        };
        if self.col_name_to_id.contains(table_id.0, &new_key) {
            self.col_name_to_id.insert(table_id.0, old_key, id);
            assert(self@.columns =~= v.columns);
            return Err(
                DomainError::ColumnAlreadyExists(
                    quoted("Nama kolom baru '", new_name, "' sudah terpakai di Registry"),
                ),
            );
        }
        self.col_name_to_id.insert(table_id.0, new_key, id);
        self.col_id_to_name.insert(id, new_name.to_owned());
        proof {
            let ok = (table_id.0, str_to_lowercase(old_name@));
            let nk = (table_id.0, str_to_lowercase(new_name@));
            lemma_bijection_rekey(v.columns, v.column_names, v.next_column, ok, nk, self@.column_names[id]);
            assert(self@.column_names =~= v.column_names.insert(id, self@.column_names[id]));
        }
        Ok(())
    }

    // --- TABLES ---

    /// Registers a table under a new name and returns its id; a name already registered,
    /// in any case, is an error.
    pub fn register_table(&mut self, name: &str) -> (r: Result<TableId, DomainError>)
        requires
            old(self).wf(),
            !old(self)@.tables.contains_key((TABLE_SCOPE, str_to_lowercase(name@))) ==> old(
                self,
            )@.next_table <= u32::MAX,
        ensures
            final(self).wf(),
            ({
                let k = (TABLE_SCOPE, str_to_lowercase(name@));
                match r {
                    Ok(t) => {
                        &&& !old(self)@.tables.contains_key(k)
                        &&& t.0 == old(self)@.next_table
                        &&& final(self)@ == (SymbolRegistryView {
                            tables: old(self)@.tables.insert(k, t.0),
                            table_names: old(self)@.table_names.insert(t.0, final(self)@.table_names[t.0]),
                            next_table: (old(self)@.next_table + 1) as u64,
                            ..old(self)@
                        })
                        &&& final(self)@.table_names[t.0]@ == name@
                    },
                    Err(e) => {
                        &&& old(self)@.tables.contains_key(k)
                        &&& final(self)@ == old(self)@
                        &&& e matches DomainError::TableAlreadyExists(m) && m@ == name@
                    },
                }
            }),
    {
        let name_lower = to_lowercase(name);
        if self.table_name_to_id.contains(TABLE_SCOPE, &name_lower) {
            return Err(DomainError::TableAlreadyExists(name.to_owned()));
        }
        let ghost v = self@;
        let new_id = self.table_id_gen.next_table_id();
        self.table_name_to_id.insert(TABLE_SCOPE, name_lower, new_id.0);
        self.table_id_to_name.insert(new_id.0, name.to_owned());
        proof {
            let k = (TABLE_SCOPE, str_to_lowercase(name@));
            lemma_bijection_insert(v.tables, v.table_names, v.next_table, k, self@.table_names[new_id.0]);
            assert(self@.table_names =~= v.table_names.insert(new_id.0, self@.table_names[new_id.0]));
        }
        Ok(new_id)
    }

    /// `register_table` where the registry can still hand out an id: `None` when the name is
    /// new and every table id has been used, with nothing changed.
    pub fn try_register_table(&mut self, name: &str) -> (r: Option<Result<TableId, DomainError>>)
        requires
            old(self).wf(),
        ensures
            final(self).wf(),
            ({
                let k = (TABLE_SCOPE, str_to_lowercase(name@));
                let v = old(self)@;
                if !v.tables.contains_key(k) && v.next_table > u32::MAX {
                    r is None && final(self)@ == v
                } else {
                    match r {
                        Some(Ok(t)) => {
                            &&& !v.tables.contains_key(k)
                            &&& t.0 == v.next_table
                            &&& final(self)@ == (SymbolRegistryView {
                                tables: v.tables.insert(k, t.0),
                                table_names: v.table_names.insert(t.0, final(self)@.table_names[t.0]),
                                next_table: (v.next_table + 1) as u64,
                                ..v
                            })
                            &&& final(self)@.table_names[t.0]@ == name@
                        },
                        Some(Err(e)) => {
                            &&& v.tables.contains_key(k)
                            &&& final(self)@ == v
                            &&& e matches DomainError::TableAlreadyExists(m) && m@ == name@
                        },
                        None => false,
                    }
                }
            }),
    {
        let name_lower = to_lowercase(name);
        if !self.table_name_to_id.contains(TABLE_SCOPE, &name_lower)
            && self.table_id_gen.current_u64() > 0xffff_ffffu64 {
            return None;
        }
        Some(self.register_table(name))
    }

    /// Unregisters a table together with every column registered for it, and returns the
    /// table's id.
    pub fn unregister_table(&mut self, name: &str) -> (r: Result<TableId, DomainError>)
        requires
            old(self).wf(),
        ensures
            final(self).wf(),
            ({
                let k = (TABLE_SCOPE, str_to_lowercase(name@));
                let v = old(self)@;
                match r {
                    Ok(t) => {
                        &&& v.tables.contains_key(k)
                        &&& t.0 == v.tables[k]
                        &&& final(self)@ == (SymbolRegistryView {
                            tables: v.tables.remove(k),
                            table_names: v.table_names.remove(t.0),
                            columns: v.columns.restrict(
                                v.columns.dom().filter(|q: (u32, Seq<char>)| q.0 != t.0),
                            ),
                            column_names: v.column_names.remove_keys(ids_of_scope(v.columns, t.0)),
                            ..v
                        })
                    },
                    Err(e) => {
                        &&& !v.tables.contains_key(k)
                        &&& final(self)@ == v
                        &&& e matches DomainError::TableNotFound(m) && m@ == "Table '"@ + name@ + "' tidak ditemukan di Registry"@
                    },
                }
            }),
    {
        let name_lower = to_lowercase(name);
        let ghost v = self@;
        let table_id = match self.table_name_to_id.remove(TABLE_SCOPE, &name_lower) {
            Some(id) => id,
            None => {
                assert(self@.tables =~= v.tables);
                return Err(
                    DomainError::TableNotFound(
                        quoted("Table '", name, "' tidak ditemukan di Registry"),
                    ),
                );
            },
        };
        self.table_id_to_name.remove(&table_id);
        let removed_col_ids = self.col_name_to_id.remove_scope(table_id);
        let ghost gone = ids_of_scope(v.columns, table_id);
        let ghost mid = self@;
        let mut i: usize = 0;
        while i < removed_col_ids.len()
            invariant
                self.indexes_wf(),
                self@.columns == mid.columns,
                self@.tables == mid.tables,
                self@.table_names == mid.table_names,
                self@.next_column == mid.next_column,
                self@.next_table == mid.next_table,
                i <= removed_col_ids@.len(),
                self.col_id_to_name@ == v.column_names.remove_keys(
                    removed_col_ids@.subrange(0, i as int).to_set(),
                ),
                forall|j: int| 0 <= j < removed_col_ids@.len() ==> gone.contains(#[trigger] removed_col_ids@[j]),
            decreases removed_col_ids@.len() - i,
        {
            let cid = removed_col_ids[i];
            self.col_id_to_name.remove(&cid);
            proof {
                let before = removed_col_ids@.subrange(0, i as int);
                let after = removed_col_ids@.subrange(0, i + 1);
                assert(after =~= before.push(cid));
                assert(after.to_set() =~= before.to_set().insert(cid)) by {
                    assert forall|x: u32| after.to_set().contains(x) == before.to_set().insert(cid).contains(x) by {
                        if after.contains(x) {
                            let j = choose|j: int| 0 <= j < after.len() && after[j] == x;
                            if j < i {
                                assert(before[j] == x);
                            }
                        }
                        if before.contains(x) {
                            let j = choose|j: int| 0 <= j < before.len() && before[j] == x;
                            assert(after[j] == x);
                        }
                        if x == cid {
                            assert(after[i as int] == x);
                        }
                    }
                }
                assert(self.col_id_to_name@ =~= v.column_names.remove_keys(after.to_set()));
            }
            i = i + 1;
        }
        proof {
            let all = removed_col_ids@.subrange(0, removed_col_ids@.len() as int);
            assert(all =~= removed_col_ids@);
            assert forall|x: u32| #[trigger] all.to_set().contains(x) == gone.contains(x) by {
                if gone.contains(x) {
                    let q = choose|q: (u32, Seq<char>)| #[trigger] v.columns.contains_key(q) && q.0 == table_id && v.columns[q] == x;
                    assert(removed_col_ids@.contains(x));
                }
                if all.to_set().contains(x) {
                    let j = choose|j: int| 0 <= j < all.len() && all[j] == x;
                    assert(gone.contains(removed_col_ids@[j]));
                }
            }
            assert(all.to_set() =~= gone);
            let k = (TABLE_SCOPE, str_to_lowercase(name@));
            lemma_bijection_remove(v.tables, v.table_names, v.next_table, k);
            lemma_bijection_drop_scope(v.columns, v.column_names, v.next_column, table_id);
        }
        Ok(TableId(table_id))
    }

    /// The id of a table, by name in any case.
    pub fn get_table_id(&self, name: &str) -> (r: Option<TableId>)
        requires
            self.wf(),
        ensures
            match r {
                Some(t) => self@.tables.get((TABLE_SCOPE, str_to_lowercase(name@))) == Some(t.0),
                None => !self@.tables.contains_key((TABLE_SCOPE, str_to_lowercase(name@))),
            },
    {
        let key = to_lowercase(name);
        match self.table_name_to_id.get(TABLE_SCOPE, &key) {
            Some(id) => Some(TableId(id)),
            None => None,
        }
    }

    /// The display name of a table id.
    pub fn get_table_name(&self, id: TableId) -> (r: Option<&str>)
        requires
            self.wf(),
        ensures
            match r {
                Some(s) => self@.table_names.contains_key(id.0) && s@ == self@.table_names[id.0]@,
                None => !self@.table_names.contains_key(id.0),
            },
    {
        match self.table_id_to_name.get(&id.0) {
            Some(s) => Some(s.as_str()),
            None => None,
        }
    }

    /// Renames a table; it keeps its id and its columns. Fails when the old name is not
    /// registered or the new name is taken by another table.
    pub fn rename_table(&mut self, old_name: &str, new_name: &str) -> (r: Result<(), DomainError>)
        requires
            old(self).wf(),
        ensures
            final(self).wf(),
            ({
                let ok = (TABLE_SCOPE, str_to_lowercase(old_name@));
                let nk = (TABLE_SCOPE, str_to_lowercase(new_name@));
                let v = old(self)@;
                if !v.tables.contains_key(ok) {
                    &&& r is Err
                    &&& r->Err_0 matches DomainError::TableNotFound(m) && m@ == "Table '"@ + old_name@ + "' tidak ditemukan di Registry"@
                    &&& final(self)@ == v
                } else if ok != nk && v.tables.contains_key(nk) {
                    &&& r is Err
                    &&& r->Err_0 matches DomainError::TableAlreadyExists(m) && m@ == "Nama Table baru '"@ + new_name@ + "' sudah terpakai di Registry"@
                    &&& final(self)@ == v
                } else {
                    &&& r is Ok
                    &&& final(self)@.tables == v.tables.remove(ok).insert(nk, v.tables[ok])
                    &&& final(self)@.table_names == v.table_names.insert(
                        v.tables[ok],
                        final(self)@.table_names[v.tables[ok]],
                    )
                    &&& final(self)@.table_names[v.tables[ok]]@ == new_name@
                    &&& final(self)@.columns == v.columns
                    &&& final(self)@.column_names == v.column_names
                    &&& final(self)@.next_column == v.next_column
                    &&& final(self)@.next_table == v.next_table
                }
            }),
    {
        let old_lower = to_lowercase(old_name);
        let new_lower = to_lowercase(new_name);
        let ghost v = self@;
        let id = match self.table_name_to_id.remove(TABLE_SCOPE, &old_lower) {
            Some(id) => id,
            None => {
                assert(self@.tables =~= v.tables);
                return Err(
                    DomainError::TableNotFound(
                        quoted("Table '", old_name, "' tidak ditemukan di Registry"),
                    ),
                );
            },
        };
        if self.table_name_to_id.contains(TABLE_SCOPE, &new_lower) {
            self.table_name_to_id.insert(TABLE_SCOPE, old_lower, id);
            assert(self@.tables =~= v.tables);
            return Err(
                DomainError::TableAlreadyExists(
                    quoted("Nama Table baru '", new_name, "' sudah terpakai di Registry"),
                ),
            );
        }
        self.table_name_to_id.insert(TABLE_SCOPE, new_lower, id);
        self.table_id_to_name.insert(id, new_name.to_owned());
        proof {
            let ok = (TABLE_SCOPE, str_to_lowercase(old_name@));
            let nk = (TABLE_SCOPE, str_to_lowercase(new_name@));
            lemma_bijection_rekey(v.tables, v.table_names, v.next_table, ok, nk, self@.table_names[id]);
            assert(self@.table_names =~= v.table_names.insert(id, self@.table_names[id]));
        }
        Ok(())
    }
}

/// Looking up the display name of a registered column, in the same table, finds the same
/// column again; likewise for tables.
pub proof fn lemma_display_name_finds_id(v: SymbolRegistryView, k: (u32, Seq<char>))
    requires
        v.wf(),
    ensures
        v.columns.contains_key(k) ==> ({
            let id = v.columns[k];
            &&& v.column_names.contains_key(id)
            &&& v.columns.get((k.0, str_to_lowercase(v.column_names[id]@))) == Some(id)
        }),
        v.tables.contains_key(k) ==> ({
            let id = v.tables[k];
            &&& v.table_names.contains_key(id)
            &&& v.tables.get((TABLE_SCOPE, str_to_lowercase(v.table_names[id]@))) == Some(id)
        }),
{
}

/// Names are looked up without regard to case: two names with the same lowercase form are
/// the same name.
pub proof fn lemma_lookup_ignores_case(v: SymbolRegistryView, table: u32, a: Seq<char>, b: Seq<char>)
    requires
        str_to_lowercase(a) == str_to_lowercase(b),
    ensures
        v.columns.get((table, str_to_lowercase(a))) == v.columns.get((table, str_to_lowercase(b))),
        v.tables.get((TABLE_SCOPE, str_to_lowercase(a))) == v.tables.get(
            (TABLE_SCOPE, str_to_lowercase(b)),
        ),
{
}

} // verus!
