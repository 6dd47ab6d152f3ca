use vstd::prelude::*;

use crate::disk::disk_manager::PageId;
use crate::disk::slotted_page::SlotId;
use crate::domain::id::RowId;

verus! {

/// Record identifier: the page that holds a tuple and the slot that designates it.
#[derive(Debug, Clone, Copy, PartialEq, Eq, Structural, Hash)]
pub struct RID {
    pub page_id: PageId,
    pub slot_id: SlotId,
}

impl RID {
    pub fn new(page_id: PageId, slot_id: SlotId) -> (r: Self)
        ensures
            r.page_id == page_id,
            r.slot_id == slot_id,
    {
        Self { page_id, slot_id }
    }
}

/// The row identifier that packs a record identifier: page id above bit 16, slot id below.
pub open spec fn rid_to_row_id(rid: RID) -> u64 {
    ((rid.page_id as u64) << 16u64) | (rid.slot_id as u64)
}

/// The record identifier that a row identifier unpacks to.
pub open spec fn row_id_to_rid(row_id: u64) -> RID {
    RID { page_id: (row_id >> 16u64) as u32, slot_id: (row_id & 0xFFFFu64) as u16 }
}

impl From<RID> for RowId {
    fn from(rid: RID) -> (r: Self) {
        let combined = ((rid.page_id as u64) << 16u64) | (rid.slot_id as u64);
        RowId(combined)
    }
}

impl vstd::std_specs::convert::FromSpecImpl<RID> for RowId {
    open spec fn obeys_from_spec() -> bool {
        true
    }

    open spec fn from_spec(rid: RID) -> Self {
        RowId(rid_to_row_id(rid))
    }
}

impl From<RowId> for RID {
    fn from(row_id: RowId) -> (r: Self) {
        let page_id = (row_id.0 >> 16u64) as u32;
        let slot_id = (row_id.0 & 0xFFFFu64) as u16;
        RID { page_id, slot_id }
    }
}

impl vstd::std_specs::convert::FromSpecImpl<RowId> for RID {
    open spec fn obeys_from_spec() -> bool {
        true
    }

    open spec fn from_spec(row_id: RowId) -> Self {
        row_id_to_rid(row_id.0)
    }
}

/// Packing a record identifier into a row identifier loses nothing: unpacking gives the
/// same page and slot back.
pub proof fn lemma_rid_round_trip(rid: RID)
    ensures
        row_id_to_rid(rid_to_row_id(rid)) == rid,
{
    let p = rid.page_id;
    let s = rid.slot_id;
    assert((((((p as u64) << 16u64) | (s as u64)) >> 16u64) as u32) == p) by (bit_vector);
    assert((((((p as u64) << 16u64) | (s as u64)) & 0xFFFFu64) as u16) == s) by (bit_vector);
}

/// A row identifier below 2^48 is the packing of the record identifier it unpacks to.
pub proof fn lemma_row_id_round_trip(row_id: u64)
    requires
        row_id < 0x1_0000_0000_0000u64,
    ensures
        rid_to_row_id(row_id_to_rid(row_id)) == row_id,
{
    assert(row_id < 0x1_0000_0000_0000u64 ==> (((((row_id >> 16u64) as u32) as u64) << 16u64) | (((
    row_id & 0xFFFFu64) as u16) as u64)) == row_id) by (bit_vector);
}

} // verus!
