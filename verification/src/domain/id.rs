use vstd::prelude::*;

verus! {

/// Identity of a column, stable across renames.
#[derive(Debug, Clone, Copy, PartialEq, Eq, Structural, Hash, PartialOrd, Ord)]
pub struct ColumnId(pub u32);

/// Identity of a table, stable across renames.
#[derive(Debug, Clone, Copy, PartialEq, Eq, Structural, Hash, PartialOrd, Ord)]
pub struct TableId(pub u32);

/// Identity of a database.
#[derive(Debug, Clone, Copy, PartialEq, Eq, Structural, Hash, PartialOrd, Ord)]
pub struct DatabaseId(pub u32);

/// Permanent identity of a row.
#[derive(Debug, Clone, Copy, PartialEq, Eq, Structural, Hash, PartialOrd, Ord)]
pub struct RowId(pub u64);

impl From<u32> for ColumnId {
    fn from(id: u32) -> (r: Self) {
        ColumnId(id)
    }
}

impl vstd::std_specs::convert::FromSpecImpl<u32> for ColumnId {
    open spec fn obeys_from_spec() -> bool {
        true
    }

    open spec fn from_spec(id: u32) -> Self {
        ColumnId(id)
    }
}

impl From<u32> for TableId {
    fn from(id: u32) -> (r: Self) {
        TableId(id)
    }
}

impl vstd::std_specs::convert::FromSpecImpl<u32> for TableId {
    open spec fn obeys_from_spec() -> bool {
        true
    }

    open spec fn from_spec(id: u32) -> Self {
        TableId(id)
    }
}

impl From<u32> for DatabaseId {
    fn from(id: u32) -> (r: Self) {
        DatabaseId(id)
    }
}

impl vstd::std_specs::convert::FromSpecImpl<u32> for DatabaseId {
    open spec fn obeys_from_spec() -> bool {
        true
    }

    open spec fn from_spec(id: u32) -> Self {
        DatabaseId(id)
    }
}

impl From<u64> for RowId {
    fn from(id: u64) -> (r: Self) {
        RowId(id)
    }
}

impl vstd::std_specs::convert::FromSpecImpl<u64> for RowId {
    open spec fn obeys_from_spec() -> bool {
        true
    }

    open spec fn from_spec(id: u64) -> Self {
        RowId(id)
    }
}

/// One 64-bit sequence from which every kind of identifier is drawn.
///
/// Each call hands out the current value and advances the sequence by one, wrapping at
/// `u64::MAX`.
#[derive(Debug, Clone)]
pub struct IdGenerator {
    counter: u64,
}

impl View for IdGenerator {
    type V = u64;

    closed spec fn view(&self) -> u64 {
        self.counter
    }
}

/// The value that follows `v` in the sequence.
pub open spec fn spec_successor(v: u64) -> u64 {
    if v == u64::MAX {
        0
    } else {
        (v + 1) as u64
    }
}

impl IdGenerator {
    pub fn new(start_value: u64) -> (r: Self)
        ensures
            r@ == start_value,
    {
        Self { counter: start_value }
    }

    /// The next raw value.
    pub fn next_u64(&mut self) -> (r: u64)
        ensures
            r == old(self)@,
            final(self)@ == spec_successor(old(self)@),
    {
        let val = self.counter;
        self.counter = self.counter.wrapping_add(1);
        val
    }

    /// The next value as a row identifier.
    pub fn next_row_id(&mut self) -> (r: RowId)
        ensures
            r == RowId(old(self)@),
            final(self)@ == spec_successor(old(self)@),
    {
        RowId(self.next_u64())
    }

    /// The next value as a 32-bit identifier; the sequence must not have passed `u32::MAX`.
    fn next_u32(&mut self) -> (r: u32)
        requires
            old(self)@ <= u32::MAX,
        ensures
            r == old(self)@,
            final(self)@ == old(self)@ + 1,
    {
        let val = self.next_u64();
        val as u32
    }

    /// The next value as a table identifier.
    pub fn next_table_id(&mut self) -> (r: TableId)
        requires
            old(self)@ <= u32::MAX,
        ensures
            r == TableId(old(self)@ as u32),
            final(self)@ == old(self)@ + 1,
    {
        TableId(self.next_u32())
    }

    /// The next value as a column identifier.
    pub fn next_column_id(&mut self) -> (r: ColumnId)
        requires
            old(self)@ <= u32::MAX,
        ensures
            r == ColumnId(old(self)@ as u32),
            final(self)@ == old(self)@ + 1,
    {
        ColumnId(self.next_u32())
    }

    /// The value that the next call will hand out.
    pub fn current_u64(&self) -> (r: u64)
        ensures
            r == self@,
    {
        self.counter
    }

    /// The value that the next call will hand out, as a row identifier.
    pub fn current_row_id(&self) -> (r: RowId)
        ensures
            r == RowId(self@),
    {
        RowId(self.current_u64())
    }
}

impl Default for IdGenerator {
    fn default() -> (r: Self)
        ensures
            r@ == 1,
    {
        Self::new(1)
    }
}

/// Below `u64::MAX`, every call hands out a value larger than all values handed out before:
/// identifiers drawn from one generator never repeat.
pub proof fn lemma_ids_increase(before: u64)
    requires
        before < u64::MAX,
    ensures
        spec_successor(before) > before,
{
}

} // verus!
