use vstd::prelude::*;

use crate::disk::disk_manager::{PageId, PAGE_SIZE};
use crate::disk::slotted_page::{
    full_page_message, get_tuple_in_bounds, page_free_ptr, page_free_remaining, page_next, page_num_slots, page_tuple,
    page_wf, slot_len, slot_offset, SlotId, SlottedPage, HEADER_SIZE, INVALID_PAGE_ID, SLOT_SIZE,
};
use crate::disk::table_rid::RID;
use crate::error::DomainError;

verus! {

/// A table stored as a chain of slotted pages starting at `first_page_id`.
#[derive(Debug, Clone, Copy)]
pub struct TableHeap {
    first_page_id: PageId,
}

/// What to do after trying to insert a tuple into one page of the chain.
pub enum InsertStep {
    /// The tuple was stored at this record identifier.
    Inserted(RID),
    /// The page is full; try the next page of the chain.
    Next(PageId),
    /// The page is full and is the last of the chain; a new page must be linked after it.
    Append,
}

impl TableHeap {
    pub fn from_first_page(first_page_id: PageId) -> (r: Self)
        ensures
            r.first_page_id() == first_page_id,
    {
        Self { first_page_id }
    }

    pub closed spec fn spec_first_page_id(&self) -> PageId {
        self.first_page_id
    }

    #[verifier::when_used_as_spec(spec_first_page_id)]
    pub fn first_page_id(&self) -> (r: PageId)
        ensures
            r == self.spec_first_page_id(),
    {
        self.first_page_id
    }

    /// One step of an insert: stores the tuple in this page of the chain if it fits,
    /// otherwise says where the walk along the chain goes next.
    pub fn insert_tuple_step(
        page_id: PageId,
        page_data: &mut [u8; PAGE_SIZE],
        tuple_bytes: &[u8],
    ) -> (r: InsertStep)
        requires
            page_free_remaining(old(page_data)@) >= tuple_bytes@.len() + SLOT_SIZE
                ==> page_free_ptr(old(page_data)@) <= PAGE_SIZE,
        ensures
            match r {
                InsertStep::Inserted(rid) => {
                    &&& rid.page_id == page_id
                    &&& rid.slot_id == page_num_slots(old(page_data)@)
                    &&& page_free_remaining(old(page_data)@) >= tuple_bytes@.len() + SLOT_SIZE
                    &&& slot_offset(final(page_data)@, rid.slot_id as int) == page_free_ptr(final(page_data)@)
                    &&& slot_len(final(page_data)@, rid.slot_id as int) == tuple_bytes@.len()
                    &&& page_tuple(final(page_data)@, rid.slot_id as int) == (if tuple_bytes@.len()
                        == 0 {
                        None
                    } else {
                        Some(tuple_bytes@)
                    })
                    &&& page_wf(old(page_data)@) ==> page_wf(final(page_data)@)
                },
                InsertStep::Next(next) => {
                    &&& page_free_remaining(old(page_data)@) < tuple_bytes@.len() + SLOT_SIZE
                    &&& final(page_data)@ == old(page_data)@
                    &&& next == page_next(old(page_data)@)
                    &&& next != INVALID_PAGE_ID
                },
                InsertStep::Append => {
                    &&& page_free_remaining(old(page_data)@) < tuple_bytes@.len() + SLOT_SIZE
                    &&& final(page_data)@ == old(page_data)@
                    &&& page_next(old(page_data)@) == INVALID_PAGE_ID
                },
            },
    {
        match SlottedPage::insert_tuple(page_data, tuple_bytes) {
            Ok(slot_id) => InsertStep::Inserted(RID::new(page_id, slot_id)),
            Err(_) => {
                let next_page_id = SlottedPage::next_page_id(page_data);
                if next_page_id != INVALID_PAGE_ID {
                    InsertStep::Next(next_page_id)
                } else {
                    InsertStep::Append
                }
            },
        }
    }

    /// Formats a fresh page and stores the tuple in it; fails only for a tuple that no page
    /// can hold.
    pub fn insert_into_new_page(page_data: &mut [u8; PAGE_SIZE], tuple_bytes: &[u8]) -> (r: Result<
        SlotId,
        DomainError,
    >)
        ensures
            page_next(final(page_data)@) == INVALID_PAGE_ID,
            page_wf(final(page_data)@),
            r is Ok <==> tuple_bytes@.len() + SLOT_SIZE <= PAGE_SIZE - HEADER_SIZE,
            match r {
                Ok(slot) => {
                    &&& slot == 0
                    &&& page_num_slots(final(page_data)@) == 1
                    &&& page_tuple(final(page_data)@, 0) == (if tuple_bytes@.len() == 0 {
                        None
                    } else {
                        Some(tuple_bytes@)
                    })
                },
                Err(e) => page_num_slots(final(page_data)@) == 0 && (e matches DomainError::Storage(m) && m@
                    == full_page_message()),
            },
    {
        SlottedPage::init(page_data);
        SlottedPage::insert_tuple(page_data, tuple_bytes)
    }

    /// The record identifiers of the live tuples of one page of the chain, in slot order.
    pub fn page_rids(page_id: PageId, page_data: &[u8; PAGE_SIZE]) -> (r: Vec<RID>)
        requires
            forall|s: int| 0 <= s < page_num_slots(page_data@) ==> #[trigger] get_tuple_in_bounds(page_data@, s),
        ensures
            forall|i: int| 0 <= i < r@.len() ==> (#[trigger] r@[i]).page_id == page_id
                && page_tuple(page_data@, r@[i].slot_id as int) is Some,
            forall|s: int|
                0 <= s < page_num_slots(page_data@) && #[trigger] page_tuple(page_data@, s) is Some
                    ==> exists|i: int| 0 <= i < r@.len() && r@[i].slot_id == s,
            forall|i: int, j: int| 0 <= i < j < r@.len() ==> r@[i].slot_id < r@[j].slot_id,
    {
        let mut rids: Vec<RID> = Vec::new();
        let num_slots = SlottedPage::num_slots(page_data);
        let mut slot_id: u16 = 0;
        while slot_id < num_slots
            invariant
                slot_id <= num_slots,
                num_slots == page_num_slots(page_data@),
                forall|s: int| 0 <= s < page_num_slots(page_data@) ==> #[trigger] get_tuple_in_bounds(page_data@, s),
                forall|i: int| 0 <= i < rids@.len() ==> (#[trigger] rids@[i]).page_id == page_id
                    && page_tuple(page_data@, rids@[i].slot_id as int) is Some
                    && rids@[i].slot_id < slot_id,
                forall|s: int|
                    0 <= s < slot_id && #[trigger] page_tuple(page_data@, s) is Some
                        ==> exists|i: int| 0 <= i < rids@.len() && rids@[i].slot_id == s,
                forall|i: int, j: int| 0 <= i < j < rids@.len() ==> rids@[i].slot_id < rids@[j].slot_id,
            decreases num_slots - slot_id,
        {
            assert(get_tuple_in_bounds(page_data@, slot_id as int));
            let ghost before = rids@;
            if SlottedPage::get_tuple(page_data, slot_id).is_some() {
                rids.push(RID::new(page_id, slot_id));
                assert(rids@[rids@.len() - 1].slot_id == slot_id);
            }
            assert forall|s: int|
                0 <= s < slot_id + 1 && #[trigger] page_tuple(page_data@, s) is Some implies exists|
                i: int,
            | 0 <= i < rids@.len() && rids@[i].slot_id == s by {
                if s < slot_id {
                    let i = choose|i: int| 0 <= i < before.len() && before[i].slot_id == s;
                    assert(rids@[i] == before[i]);
                } else {
                    assert(rids@[rids@.len() - 1].slot_id == s);
                }
            }
            slot_id = slot_id + 1;
        }
        rids
    }
}

} // verus!
