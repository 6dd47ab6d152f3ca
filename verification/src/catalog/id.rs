use std::collections::HashMap;
use vstd::prelude::*;

verus! {

broadcast use vstd::std_specs::hash::group_hash_axioms;

/// Identity of a column within its table.
#[derive(Debug, Clone, Copy, PartialEq, Eq, Structural, PartialOrd, Ord, Hash)]
pub struct ColumnId(pub u32);

/// Identity of a table within its database.
#[derive(Debug, Clone, Copy, PartialEq, Eq, Structural, PartialOrd, Ord, Hash)]
pub struct TableId(pub u32);

/// Identity of a database.
#[derive(Debug, Clone, Copy, PartialEq, Eq, Structural, PartialOrd, Ord, Hash)]
pub struct DatabaseId(pub u32);

/// Identity of a user.
#[derive(Debug, Clone, Copy, PartialEq, Eq, Structural, PartialOrd, Ord, Hash)]
pub struct UserId(pub u32);

/// Permanent identity of a row.
#[derive(Debug, Clone, Copy, PartialEq, Eq, Structural, PartialOrd, Ord, Hash)]
pub struct RowId(pub u64);

impl RowId {
    pub fn as_u64(&self) -> (r: u64)
        ensures
            r == self.0,
    {
        self.0
    }
}

impl From<u64> for RowId {
    fn from(id: u64) -> (r: Self) {
        RowId(id)
    }
}

impl vstd::std_specs::convert::FromSpecImpl<u64> for RowId {
    open spec fn obeys_from_spec() -> bool {
        true
    }

    open spec fn from_spec(id: u64) -> Self {
        RowId(id)
    }
}

impl From<RowId> for u64 {
    fn from(row_id: RowId) -> (r: Self) {
        row_id.0
    }
}

impl vstd::std_specs::convert::FromSpecImpl<RowId> for u64 {
    open spec fn obeys_from_spec() -> bool {
        true
    }

    open spec fn from_spec(row_id: RowId) -> Self {
        row_id.0
    }
}

impl From<u32> for ColumnId {
    fn from(id: u32) -> (r: Self) {
        ColumnId(id)
    }
}

impl vstd::std_specs::convert::FromSpecImpl<u32> for ColumnId {
    open spec fn obeys_from_spec() -> bool {
        true
    }

    open spec fn from_spec(id: u32) -> Self {
        ColumnId(id)
    }
}

impl From<u32> for TableId {
    fn from(id: u32) -> (r: Self) {
        TableId(id)
    }
}

impl vstd::std_specs::convert::FromSpecImpl<u32> for TableId {
    open spec fn obeys_from_spec() -> bool {
        true
    }

    open spec fn from_spec(id: u32) -> Self {
        TableId(id)
    }
}

impl From<u32> for DatabaseId {
    fn from(id: u32) -> (r: Self) {
        DatabaseId(id)
    }
}

impl vstd::std_specs::convert::FromSpecImpl<u32> for DatabaseId {
    open spec fn obeys_from_spec() -> bool {
        true
    }

    open spec fn from_spec(id: u32) -> Self {
        DatabaseId(id)
    }
}

/// The counters of a catalog: one for tables, one per table for its columns, one for users
/// and one for databases, all starting from the same value.
#[derive(Debug)]
pub struct IdGenerator {
    table_counter: u64,
    column_counters: HashMap<u32, u32>,
    user_counter: u64,
    db_counter: u64,
    start_value: u32,
}

/// The counters as a model; `columns` maps a table id to the next column id of that table.
/// The table, user and database counters pass `u32::MAX` once its id has been handed out,
/// and then hand out no more.
pub struct IdGeneratorView {
    pub table: u64,
    pub columns: Map<u32, u32>,
    pub user: u64,
    pub db: u64,
    pub start: u32,
}

impl View for IdGenerator {
    type V = IdGeneratorView;

    closed spec fn view(&self) -> IdGeneratorView {
        IdGeneratorView {
            table: self.table_counter,
            columns: self.column_counters@,
            user: self.user_counter,
            db: self.db_counter,
            start: self.start_value,
        }
    }
}

/// The next column id that a table would receive.
pub open spec fn next_column_of(v: IdGeneratorView, table_id: TableId) -> u32 {
    if v.columns.contains_key(table_id.0) {
        v.columns[table_id.0]
    } else {
        v.start
    }
}

impl IdGenerator {
    pub fn new(start_value: u32) -> (r: Self)
        ensures
            r@ == (IdGeneratorView {
                table: start_value as u64,
                columns: Map::empty(),
                user: start_value as u64,
                db: start_value as u64,
                start: start_value,
            }),
    {
        Self {
            table_counter: start_value as u64,
            column_counters: HashMap::new(),
            user_counter: start_value as u64,
            db_counter: start_value as u64,
            start_value,
        }
    }

    /// Hands out the table counter and advances it. Once `u32::MAX` has been handed out the
    /// table ids are exhausted: a further id would overflow.
    pub fn next_table_id(&mut self) -> (r: TableId)
        requires
            old(self)@.table <= u32::MAX,
        ensures
            r == TableId(old(self)@.table as u32),
            final(self)@ == (IdGeneratorView { table: (old(self)@.table + 1) as u64, ..old(self)@ }),
    {
        let val = self.table_counter;
        self.table_counter = self.table_counter + 1;
        TableId(val as u32)
    }

    /// Hands out the next column id of a table, starting the table's counter at the start
    /// value; the counter must be below `u32::MAX`.
    pub fn next_column_id(&mut self, table_id: TableId) -> (r: ColumnId)
        requires
            next_column_of(old(self)@, table_id) < u32::MAX,
        ensures
            r == ColumnId(next_column_of(old(self)@, table_id)),
            final(self)@ == (IdGeneratorView {
                columns: old(self)@.columns.insert(table_id.0, (r.0 + 1) as u32),
                ..old(self)@
            }),
    {
        let current = match self.column_counters.get(&table_id.0) {
            Some(c) => *c,
            None => self.start_value,
        };
        self.column_counters.insert(table_id.0, current + 1);
        ColumnId(current)
    }

    /// Hands out the user counter and advances it; user ids are exhausted once `u32::MAX`
    /// has been handed out.
    pub fn next_user_id(&mut self) -> (r: UserId)
        requires
            old(self)@.user <= u32::MAX,
        ensures
            r == UserId(old(self)@.user as u32),
            final(self)@ == (IdGeneratorView { user: (old(self)@.user + 1) as u64, ..old(self)@ }),
    {
        let val = self.user_counter;
        self.user_counter = self.user_counter + 1;
        UserId(val as u32)
    }

    /// Hands out the database counter and advances it; database ids are exhausted once
    /// `u32::MAX` has been handed out.
    pub fn next_database_id(&mut self) -> (r: DatabaseId)
        requires
            old(self)@.db <= u32::MAX,
        ensures
            r == DatabaseId(old(self)@.db as u32),
            final(self)@ == (IdGeneratorView { db: (old(self)@.db + 1) as u64, ..old(self)@ }),
    {
        let val = self.db_counter;
        self.db_counter = self.db_counter + 1;
        DatabaseId(val as u32)
    }

    /// Restarts table ids when the catalog holds no table.
    pub fn reset_table_if_empty(&mut self, is_empty: bool)
        ensures
            final(self)@ == if is_empty {
                IdGeneratorView { table: old(self)@.start as u64, ..old(self)@ }
            } else {
                old(self)@
            },
    {
        if is_empty {
            self.table_counter = self.start_value as u64;
        }
    }

    /// Restarts user ids when there is no user.
    pub fn reset_user_if_empty(&mut self, is_empty: bool)
        ensures
            final(self)@ == if is_empty {
                IdGeneratorView { user: old(self)@.start as u64, ..old(self)@ }
            } else {
                old(self)@
            },
    {
        if is_empty {
            self.user_counter = self.start_value as u64;
        }
    }

    /// Restarts database ids when there is no database.
    pub fn reset_database_if_empty(&mut self, is_empty: bool)
        ensures
            final(self)@ == if is_empty {
                IdGeneratorView { db: old(self)@.start as u64, ..old(self)@ }
            } else {
                old(self)@
            },
    {
        if is_empty {
            self.db_counter = self.start_value as u64;
        }
    }

    /// Forgets the column counter of a dropped table.
    pub fn remove_table_counter(&mut self, table_id: TableId)
        ensures
            final(self)@ == (IdGeneratorView {
                columns: old(self)@.columns.remove(table_id.0),
                ..old(self)@
            }),
    {
        self.column_counters.remove(&table_id.0);
    }

    /// Restarts a table's column ids when the table has no column left.
    pub fn reset_column_counter_if_empty(&mut self, table_id: TableId, is_empty: bool)
        ensures
            final(self)@ == if is_empty {
                IdGeneratorView {
                    columns: old(self)@.columns.insert(table_id.0, old(self)@.start),
                    ..old(self)@
                }
            } else {
                old(self)@
            },
    {
        if is_empty {
            self.column_counters.insert(table_id.0, self.start_value);
        }
    }
}

impl Default for IdGenerator {
    fn default() -> (r: Self)
        ensures
            r@ == (IdGeneratorView { table: 1, columns: Map::empty(), user: 1, db: 1, start: 1 }),
    {
        Self::new(1)
    }
}

/// Two column ids drawn one after the other for the same table differ: the second is the
/// first plus one.
pub proof fn lemma_column_ids_advance(v: IdGeneratorView, table_id: TableId)
    requires
        next_column_of(v, table_id) < u32::MAX,
    ensures
        next_column_of(
            IdGeneratorView {
                columns: v.columns.insert(table_id.0, (next_column_of(v, table_id) + 1) as u32),
                ..v
            },
            table_id,
        ) == next_column_of(v, table_id) + 1,
{
}

/// Drawing a column id for one table leaves the counters of every other table alone.
pub proof fn lemma_column_counters_independent(v: IdGeneratorView, t: TableId, u: TableId)
    requires
        t != u,
        next_column_of(v, t) < u32::MAX,
    ensures
        next_column_of(
            IdGeneratorView {
                columns: v.columns.insert(t.0, (next_column_of(v, t) + 1) as u32),
                ..v
            },
            u,
        ) == next_column_of(v, u),
{
}

/// The counters after one `next_column_id(t)`, as its contract gives them.
pub open spec fn after_column_id(v: IdGeneratorView, t: TableId) -> IdGeneratorView {
    IdGeneratorView { columns: v.columns.insert(t.0, (next_column_of(v, t) + 1) as u32), ..v }
}

/// The counters after `k` calls of `next_column_id(t)`.
pub open spec fn after_column_ids(v: IdGeneratorView, t: TableId, k: nat) -> IdGeneratorView
    decreases k,
{
    if k == 0 {
        v
    } else {
        after_column_id(after_column_ids(v, t, (k - 1) as nat), t)
    }
}

/// A run of column ids for one table: the `j`-th call hands out the table's counter plus
/// `j`, so no id repeats, and the counters of every other table, and the table, user and
/// database counters, stay as they were.
pub proof fn lemma_column_id_sequence(v: IdGeneratorView, t: TableId, k: nat)
    requires
        next_column_of(v, t) + k <= u32::MAX,
    ensures
        next_column_of(after_column_ids(v, t, k), t) == next_column_of(v, t) + k,
        forall|u: TableId| u != t ==> #[trigger] next_column_of(after_column_ids(v, t, k), u)
            == next_column_of(v, u),
        after_column_ids(v, t, k).table == v.table,
        after_column_ids(v, t, k).user == v.user,
        after_column_ids(v, t, k).db == v.db,
        after_column_ids(v, t, k).start == v.start,
    decreases k,
{
    if k > 0 {
        lemma_column_id_sequence(v, t, (k - 1) as nat);
        let w = after_column_ids(v, t, (k - 1) as nat);
        assert forall|u: TableId| u != t implies #[trigger] next_column_of(after_column_id(w, t), u)
            == next_column_of(w, u) by {
            assert(u.0 != t.0);
        }
    }
}

/// The counters after `k` calls of `next_table_id`.
pub open spec fn after_table_ids(v: IdGeneratorView, k: nat) -> IdGeneratorView
    decreases k,
{
    if k == 0 {
        v
    } else {
        let w = after_table_ids(v, (k - 1) as nat);
        IdGeneratorView { table: (w.table + 1) as u64, ..w }
    }
}

/// A run of table ids: the `j`-th call hands out the counter plus `j`, so no id is handed out
/// twice until a reset, every call of the run is admitted while the last id is at most
/// `u32::MAX`, and the other counters stay as they were.
pub proof fn lemma_table_id_sequence(v: IdGeneratorView, k: nat)
    requires
        v.table + k <= u32::MAX + 1,
    ensures
        after_table_ids(v, k).table == v.table + k,
        forall|j: nat| j <= k ==> #[trigger] after_table_ids(v, j).table == v.table + j,
        forall|j: nat| j < k ==> #[trigger] after_table_ids(v, j).table <= u32::MAX,
        forall|i: nat, j: nat|
            i < j <= k ==> #[trigger] after_table_ids(v, i).table < #[trigger] after_table_ids(v, j).table,
        after_table_ids(v, k).columns == v.columns,
        after_table_ids(v, k).user == v.user,
        after_table_ids(v, k).db == v.db,
        after_table_ids(v, k).start == v.start,
    decreases k,
{
    if k > 0 {
        lemma_table_id_sequence(v, (k - 1) as nat);
    }
}

} // verus!
