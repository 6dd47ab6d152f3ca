use vstd::prelude::*;

use crate::disk::disk_manager::{PageId, PAGE_SIZE};
use crate::error::DomainError;

verus! {

/// Index of a slot in the slot directory of a page.
pub type SlotId = u16;

/// Bytes taken by the page header: next page id (4), slot count (2), free space pointer (2).
pub const HEADER_SIZE: usize = 8;

/// Bytes taken by one slot entry: tuple offset (2) and tuple length (2).
pub const SLOT_SIZE: usize = 4;

/// Marks the end of a page chain.
pub const INVALID_PAGE_ID: PageId = 0xFFFF_FFFFu32;

/// The message of the error for a tuple that does not fit in a page.
pub open spec fn full_page_message() -> Seq<char> {
    "Kapasitas halaman tidak mencukupi untuk tuple"@
}

/// A page laid out as a slotted page: a header and a slot directory that grow from the
/// front, and tuple bytes that grow from the back.
pub struct SlottedPage;

// ---------------------------------------------------------------------------
// The byte layout, as a model over the page contents
// ---------------------------------------------------------------------------

/// Little-endian 16-bit number stored at `i`.
pub open spec fn le16(p: Seq<u8>, i: int) -> int {
    p[i] as int + 256 * (p[i + 1] as int)
}

/// Little-endian 32-bit number stored at `i`.
pub open spec fn le32(p: Seq<u8>, i: int) -> int {
    le16(p, i) + 65536 * le16(p, i + 2)
}

pub open spec fn page_next(p: Seq<u8>) -> int {
    le32(p, 0)
}

pub open spec fn page_num_slots(p: Seq<u8>) -> int {
    le16(p, 4)
}

pub open spec fn page_free_ptr(p: Seq<u8>) -> int {
    le16(p, 6)
}

/// First byte after the slot directory.
pub open spec fn page_header_end(p: Seq<u8>) -> int {
    HEADER_SIZE + SLOT_SIZE * page_num_slots(p)
}

pub open spec fn slot_entry(s: int) -> int {
    HEADER_SIZE + SLOT_SIZE * s
}

pub open spec fn slot_offset(p: Seq<u8>, s: int) -> int {
    le16(p, slot_entry(s))
}

pub open spec fn slot_len(p: Seq<u8>, s: int) -> int {
    le16(p, slot_entry(s) + 2)
}

pub open spec fn page_free_remaining(p: Seq<u8>) -> int {
    if page_free_ptr(p) < page_header_end(p) {
        0
    } else {
        page_free_ptr(p) - page_header_end(p)
    }
}

/// The tuple that a slot designates, if the slot exists and is live.
pub open spec fn page_tuple(p: Seq<u8>, s: int) -> Option<Seq<u8>> {
    if s < 0 || s >= page_num_slots(p) || slot_len(p, s) == 0 {
        None
    } else {
        Some(p.subrange(slot_offset(p, s), slot_offset(p, s) + slot_len(p, s)))
    }
}

/// A live slot whose bytes lie inside the page.
pub open spec fn slot_in_page(p: Seq<u8>, s: int) -> bool {
    slot_len(p, s) == 0 || slot_offset(p, s) + slot_len(p, s) <= PAGE_SIZE
}

/// The layout that `init` and `insert_tuple` keep: the slot directory ends before the
/// free space pointer, and every live tuple lies between the free space pointer and the
/// end of the page.
pub open spec fn page_wf(p: Seq<u8>) -> bool {
    &&& p.len() == PAGE_SIZE
    &&& page_header_end(p) <= page_free_ptr(p) <= PAGE_SIZE
    &&& forall|s: int|
        0 <= s < page_num_slots(p) ==> slot_len(p, s) == 0 || (page_free_ptr(p) <= #[trigger] slot_offset(
            p,
            s,
        ) && slot_offset(p, s) + slot_len(p, s) <= PAGE_SIZE)
}

/// What `get_tuple` can read without leaving the page.
pub open spec fn get_tuple_in_bounds(p: Seq<u8>, s: int) -> bool {
    s < page_num_slots(p) ==> (slot_entry(s) + SLOT_SIZE <= PAGE_SIZE && slot_in_page(p, s))
}

// ---------------------------------------------------------------------------
// Byte helpers
// ---------------------------------------------------------------------------

fn read_u16(page: &[u8; PAGE_SIZE], i: usize) -> (v: u16)
    requires
        i + 1 < PAGE_SIZE,
    ensures
        v as int == le16(page@, i as int),
{
    let lo = page[i] as u16;
    let hi = page[i + 1] as u16;
    lo + hi * 256
}

fn write_u16(page: &mut [u8; PAGE_SIZE], i: usize, v: u16)
    requires
        i + 1 < PAGE_SIZE,
    ensures
        final(page)@ == old(page)@.update(i as int, (v % 256) as u8).update(
            i as int + 1,
            (v / 256) as u8,
        ),
        le16(final(page)@, i as int) == v,
{
    page[i] = (v % 256) as u8;
    page[i + 1] = (v / 256) as u8;
}

fn read_u32(page: &[u8; PAGE_SIZE], i: usize) -> (v: u32)
    requires
        i + 3 < PAGE_SIZE,
    ensures
        v as int == le32(page@, i as int),
{
    let lo = read_u16(page, i) as u32;
    let hi = read_u16(page, i + 2) as u32;
    lo + hi * 65536
}

fn write_u32(page: &mut [u8; PAGE_SIZE], i: usize, v: u32)
    requires
        i + 3 < PAGE_SIZE,
    ensures
        le32(final(page)@, i as int) == v,
        forall|j: int| 0 <= j < PAGE_SIZE && (j < i || j > i + 3) ==> final(page)@[j] == old(page)@[j],
{
    write_u16(page, i, (v % 65536) as u16);
    write_u16(page, i + 2, (v / 65536) as u16);
}

impl SlottedPage {
    /// Formats an empty page: no successor, no slots, the free space pointer at the end.
    pub fn init(page_data: &mut [u8; PAGE_SIZE])
        ensures
            page_next(final(page_data)@) == INVALID_PAGE_ID,
            page_num_slots(final(page_data)@) == 0,
            page_free_ptr(final(page_data)@) == PAGE_SIZE,
            page_free_remaining(final(page_data)@) == PAGE_SIZE - HEADER_SIZE,
            page_wf(final(page_data)@),
            forall|j: int|
                HEADER_SIZE <= j < PAGE_SIZE ==> final(page_data)@[j] == old(page_data)@[j],
    {
        write_u32(page_data, 0, INVALID_PAGE_ID);
        write_u16(page_data, 4, 0);
        write_u16(page_data, 6, PAGE_SIZE as u16);
    }

    /// The page that follows this one in its chain.
    pub fn next_page_id(page_data: &[u8; PAGE_SIZE]) -> (r: PageId)
        ensures
            r == page_next(page_data@),
    {
        read_u32(page_data, 0)
    }

    /// Links this page to a successor; nothing but the header's first four bytes changes.
    pub fn set_next_page_id(page_data: &mut [u8; PAGE_SIZE], next_page_id: PageId)
        ensures
            page_next(final(page_data)@) == next_page_id,
            page_num_slots(final(page_data)@) == page_num_slots(old(page_data)@),
            page_free_ptr(final(page_data)@) == page_free_ptr(old(page_data)@),
            page_free_remaining(final(page_data)@) == page_free_remaining(old(page_data)@),
            forall|j: int| 4 <= j < PAGE_SIZE ==> final(page_data)@[j] == old(page_data)@[j],
            page_wf(old(page_data)@) ==> page_wf(final(page_data)@),
            page_wf(old(page_data)@) ==> forall|s: int|
                0 <= s < page_num_slots(old(page_data)@) ==> #[trigger] page_tuple(final(page_data)@, s)
                    == page_tuple(old(page_data)@, s),
    {
        let ghost before = page_data@;
        write_u32(page_data, 0, next_page_id);
        proof {
            let after = page_data@;
            if page_wf(before) {
                assert forall|s: int| 0 <= s < page_num_slots(before) implies slot_offset(after, s)
                    == slot_offset(before, s) && slot_len(after, s) == slot_len(before, s) by {
                    assert(after[slot_entry(s)] == before[slot_entry(s)]);
                    assert(after[slot_entry(s) + 1] == before[slot_entry(s) + 1]);
                    assert(after[slot_entry(s) + 2] == before[slot_entry(s) + 2]);
                    assert(after[slot_entry(s) + 3] == before[slot_entry(s) + 3]);
                }
                assert(page_wf(after));
                assert forall|s: int| 0 <= s < page_num_slots(before) implies #[trigger] page_tuple(
                    after,
                    s,
                ) == page_tuple(before, s) by {
                    if slot_len(before, s) != 0 {
                        assert(after.subrange(slot_offset(after, s), slot_offset(after, s) + slot_len(after, s))
                            =~= before.subrange(slot_offset(before, s), slot_offset(before, s) + slot_len(before, s)));
                    }
                }
            }
        }
    }

    /// Number of entries in the slot directory, live or deleted.
    pub fn num_slots(page_data: &[u8; PAGE_SIZE]) -> (r: u16)
        ensures
            r == page_num_slots(page_data@),
    {
        read_u16(page_data, 4)
    }

    fn set_num_slots(page_data: &mut [u8; PAGE_SIZE], count: u16)
        ensures
            page_num_slots(final(page_data)@) == count,
            forall|j: int|
                0 <= j < PAGE_SIZE && j != 4 && j != 5 ==> final(page_data)@[j] == old(page_data)@[j],
    {
        write_u16(page_data, 4, count);
    }

    /// Offset of the first tuple byte; tuples occupy the bytes from here to the page end.
    pub fn free_space_pointer(page_data: &[u8; PAGE_SIZE]) -> (r: u16)
        ensures
            r == page_free_ptr(page_data@),
    {
        read_u16(page_data, 6)
    }

    fn set_free_space_pointer(page_data: &mut [u8; PAGE_SIZE], ptr: u16)
        ensures
            page_free_ptr(final(page_data)@) == ptr,
            forall|j: int|
                0 <= j < PAGE_SIZE && j != 6 && j != 7 ==> final(page_data)@[j] == old(page_data)@[j],
    {
        write_u16(page_data, 6, ptr);
    }

    /// Bytes left between the end of the slot directory and the free space pointer.
    pub fn free_space_remaining(page_data: &[u8; PAGE_SIZE]) -> (r: usize)
        ensures
            r == page_free_remaining(page_data@),
    {
        let num_slots = Self::num_slots(page_data) as usize;
        let free_ptr = Self::free_space_pointer(page_data) as usize;
        let header_end = HEADER_SIZE + (num_slots * SLOT_SIZE);

        if free_ptr < header_end {
            0
        } else {
            free_ptr - header_end
        }
    }

    /// Appends a tuple: its bytes go just below the free space pointer and a new slot
    /// entry records where they are. Fails without touching the page when the free space
    /// cannot hold the tuple and its slot entry.
    pub fn insert_tuple(page_data: &mut [u8; PAGE_SIZE], tuple_bytes: &[u8]) -> (r: Result<
        SlotId,
        DomainError,
    >)
        requires
            page_free_remaining(old(page_data)@) >= tuple_bytes@.len() + SLOT_SIZE ==> page_free_ptr(
                old(page_data)@,
            ) <= PAGE_SIZE,
        ensures
            match r {
                Ok(slot) => {
                    &&& page_free_remaining(old(page_data)@) >= tuple_bytes@.len() + SLOT_SIZE
                    &&& slot == page_num_slots(old(page_data)@)
                    &&& page_num_slots(final(page_data)@) == slot + 1
                    &&& page_free_ptr(final(page_data)@) == page_free_ptr(old(page_data)@)
                        - tuple_bytes@.len()
                    &&& page_free_remaining(final(page_data)@) == page_free_remaining(
                        old(page_data)@,
                    ) - tuple_bytes@.len() - SLOT_SIZE
                    &&& page_next(final(page_data)@) == page_next(old(page_data)@)
                    &&& slot_offset(final(page_data)@, slot as int) == page_free_ptr(
                        final(page_data)@,
                    )
                    &&& slot_len(final(page_data)@, slot as int) == tuple_bytes@.len()
                    &&& page_tuple(final(page_data)@, slot as int) == (if tuple_bytes@.len()
                        == 0 {
                        None
                    } else {
                        Some(tuple_bytes@)
                    })
                    &&& forall|s: int|
                        0 <= s < slot ==> slot_offset(final(page_data)@, s) == slot_offset(
                            old(page_data)@,
                            s,
                        ) && slot_len(final(page_data)@, s) == slot_len(old(page_data)@, s)
                    &&& page_wf(old(page_data)@) ==> page_wf(final(page_data)@)
                    &&& page_wf(old(page_data)@) ==> forall|s: int|
                        0 <= s < slot ==> #[trigger] page_tuple(final(page_data)@, s)
                            == page_tuple(old(page_data)@, s)
                },
                Err(e) => {
                    &&& page_free_remaining(old(page_data)@) < tuple_bytes@.len() + SLOT_SIZE
                    &&& final(page_data)@ == old(page_data)@
                    &&& e matches DomainError::Storage(m) && m@ == full_page_message()
                },
            },
    {
        let tuple_len = tuple_bytes.len();
        let remaining = Self::free_space_remaining(page_data);

        if remaining < SLOT_SIZE || remaining - SLOT_SIZE < tuple_len {
            return Err(DomainError::storage("Kapasitas halaman tidak mencukupi untuk tuple"));
        }
        let ghost old_page = page_data@;
        let num_slots = Self::num_slots(page_data);
        let current_free_ptr = Self::free_space_pointer(page_data);

        let new_free_ptr = current_free_ptr - tuple_len as u16;
        let tuple_offset = new_free_ptr as usize;

        let mut k: usize = 0;
        while k < tuple_len
            invariant
                k <= tuple_len,
                tuple_len == tuple_bytes@.len(),
                tuple_offset + tuple_len <= PAGE_SIZE,
                forall|j: int|
                    0 <= j < PAGE_SIZE ==> #[trigger] page_data@[j] == if tuple_offset <= j
                        < tuple_offset + k {
                        tuple_bytes@[j - tuple_offset]
                    } else {
                        old_page[j]
                    },
            decreases tuple_len - k,
        {
            page_data[tuple_offset + k] = tuple_bytes[k];
            k = k + 1;
        }
        let ghost copied = page_data@;
        assert(copied.subrange(tuple_offset as int, tuple_offset + tuple_len) =~= tuple_bytes@);

        let slot_entry_offset = HEADER_SIZE + (num_slots as usize * SLOT_SIZE);
        write_u16(page_data, slot_entry_offset, new_free_ptr);
        write_u16(page_data, slot_entry_offset + 2, tuple_len as u16);

        let slot_id = num_slots;
        Self::set_num_slots(page_data, num_slots + 1);
        Self::set_free_space_pointer(page_data, new_free_ptr);

        let ghost new_page = page_data@;
        assert(forall|j: int|
            HEADER_SIZE <= j < PAGE_SIZE && (j < slot_entry_offset || j >= slot_entry_offset + 4)
                ==> new_page[j] == copied[j]);
        assert(forall|j: int|
            tuple_offset <= j < tuple_offset + tuple_len ==> new_page[j] == copied[j]);
        assert(new_page.subrange(tuple_offset as int, tuple_offset + tuple_len)
            =~= tuple_bytes@);
        assert forall|s: int| 0 <= s < slot_id implies slot_offset(new_page, s) == slot_offset(
            old_page,
            s,
        ) && slot_len(new_page, s) == slot_len(old_page, s) by {
            assert(new_page[slot_entry(s)] == old_page[slot_entry(s)]);
            assert(new_page[slot_entry(s) + 1] == old_page[slot_entry(s) + 1]);
            assert(new_page[slot_entry(s) + 2] == old_page[slot_entry(s) + 2]);
            assert(new_page[slot_entry(s) + 3] == old_page[slot_entry(s) + 3]);
        }
        assert(new_page[0] == old_page[0] && new_page[1] == old_page[1] && new_page[2]
            == old_page[2] && new_page[3] == old_page[3]);
        proof {
            if page_wf(old_page) {
                assert forall|s: int| 0 <= s < slot_id implies #[trigger] page_tuple(new_page, s)
                    == page_tuple(old_page, s) by {
                    if slot_len(old_page, s) != 0 {
                        let a = slot_offset(old_page, s);
                        let b = a + slot_len(old_page, s);
                        assert(page_free_ptr(old_page) <= slot_offset(old_page, s));
                        assert forall|j: int| a <= j < b implies new_page[j] == old_page[j] by {
                            assert(copied[j] == old_page[j]);
                        }
                        assert(new_page.subrange(a, b) =~= old_page.subrange(a, b));
                    }
                }
                assert forall|s: int| 0 <= s < page_num_slots(new_page) implies slot_len(new_page, s)
                    == 0 || (page_free_ptr(new_page) <= #[trigger] slot_offset(new_page, s)
                    && slot_offset(new_page, s) + slot_len(new_page, s) <= PAGE_SIZE) by {
                    if s < slot_id {
                        assert(page_free_ptr(old_page) <= slot_offset(old_page, s) || slot_len(
                            old_page,
                            s,
                        ) == 0);
                    }
                }
            }
        }
        Ok(slot_id)
    }

    /// Whether `get_tuple` can read a slot without leaving the page: a slot that does not
    /// exist always can; an existing slot needs its directory entry, and a live one its bytes,
    /// inside the page.
    pub fn tuple_in_bounds(page_data: &[u8; PAGE_SIZE], slot_id: SlotId) -> (r: bool)
        ensures
            r == get_tuple_in_bounds(page_data@, slot_id as int),
    {
        let num_slots = Self::num_slots(page_data);
        if slot_id >= num_slots {
            return true;
        }
        let slot_entry_offset = HEADER_SIZE + (slot_id as usize * SLOT_SIZE);
        if slot_entry_offset + SLOT_SIZE > PAGE_SIZE {
            return false;
        }
        let tuple_offset = read_u16(page_data, slot_entry_offset) as usize;
        let tuple_size = read_u16(page_data, slot_entry_offset + 2) as usize;
        tuple_size == 0 || tuple_offset + tuple_size <= PAGE_SIZE
    }

    /// The bytes of a live tuple, or `None` for a slot that does not exist or was deleted.
    pub fn get_tuple<'a>(page_data: &'a [u8; PAGE_SIZE], slot_id: SlotId) -> (r: Option<&'a [u8]>)
        requires
            get_tuple_in_bounds(page_data@, slot_id as int),
        ensures
            match r {
                Some(t) => page_tuple(page_data@, slot_id as int) == Some(t@),
                None => page_tuple(page_data@, slot_id as int) is None,
            },
    {
        let num_slots = Self::num_slots(page_data);
        if slot_id >= num_slots {
            return None;
        }

        let slot_entry_offset = HEADER_SIZE + (slot_id as usize * SLOT_SIZE);
        let tuple_offset = read_u16(page_data, slot_entry_offset) as usize;
        let tuple_size = read_u16(page_data, slot_entry_offset + 2) as usize;

        if tuple_size == 0 {
            return None;
        }

        Some(&page_data[tuple_offset..tuple_offset + tuple_size])
    }

    /// Marks a slot deleted by setting its length to zero; the slot number stays taken.
    /// Returns whether the slot existed.
    pub fn mark_delete(page_data: &mut [u8; PAGE_SIZE], slot_id: SlotId) -> (r: bool)
        requires
            slot_id < page_num_slots(old(page_data)@) ==> slot_entry(slot_id as int) + SLOT_SIZE
                <= PAGE_SIZE,
        ensures
            r == (slot_id < page_num_slots(old(page_data)@)),
            !r ==> final(page_data)@ == old(page_data)@,
            r ==> page_tuple(final(page_data)@, slot_id as int) is None,
            page_num_slots(final(page_data)@) == page_num_slots(old(page_data)@),
            page_free_ptr(final(page_data)@) == page_free_ptr(old(page_data)@),
            page_free_remaining(final(page_data)@) == page_free_remaining(old(page_data)@),
            page_next(final(page_data)@) == page_next(old(page_data)@),
            page_wf(old(page_data)@) ==> page_wf(final(page_data)@),
            page_wf(old(page_data)@) ==> forall|s: int|
                0 <= s < page_num_slots(old(page_data)@) && s != slot_id ==> #[trigger] page_tuple(
                    final(page_data)@,
                    s,
                ) == page_tuple(old(page_data)@, s),
    {
        let num_slots = Self::num_slots(page_data);
        if slot_id >= num_slots {
            return false;
        }
        let ghost old_page = page_data@;
        let slot_entry_offset = HEADER_SIZE + (slot_id as usize * SLOT_SIZE);
        write_u16(page_data, slot_entry_offset + 2, 0);
        let ghost new_page = page_data@;
        proof {
            if page_wf(old_page) {
                assert forall|s: int|
                    0 <= s < page_num_slots(old_page) && s != slot_id implies #[trigger] page_tuple(
                    new_page,
                    s,
                ) == page_tuple(old_page, s) by {
                    assert(new_page[slot_entry(s)] == old_page[slot_entry(s)]);
                    assert(new_page[slot_entry(s) + 1] == old_page[slot_entry(s) + 1]);
                    assert(new_page[slot_entry(s) + 2] == old_page[slot_entry(s) + 2]);
                    assert(new_page[slot_entry(s) + 3] == old_page[slot_entry(s) + 3]);
                    if slot_len(old_page, s) != 0 {
                        let a = slot_offset(old_page, s);
                        let b = a + slot_len(old_page, s);
                        assert(page_free_ptr(old_page) <= slot_offset(old_page, s));
                        assert(new_page.subrange(a, b) =~= old_page.subrange(a, b));
                    }
                }
                assert forall|s: int| 0 <= s < page_num_slots(new_page) implies slot_len(new_page, s)
                    == 0 || (page_free_ptr(new_page) <= #[trigger] slot_offset(new_page, s)
                    && slot_offset(new_page, s) + slot_len(new_page, s) <= PAGE_SIZE) by {
                    if s != slot_id {
                        assert(new_page[slot_entry(s)] == old_page[slot_entry(s)]);
                        assert(new_page[slot_entry(s) + 1] == old_page[slot_entry(s) + 1]);
                        assert(new_page[slot_entry(s) + 2] == old_page[slot_entry(s) + 2]);
                        assert(new_page[slot_entry(s) + 3] == old_page[slot_entry(s) + 3]);
                        assert(slot_offset(new_page, s) == slot_offset(old_page, s));
                        assert(slot_len(new_page, s) == slot_len(old_page, s));
                    } else {
                        assert(slot_entry(s) + 2 == slot_entry_offset + 2);
                        assert(slot_len(new_page, s) == 0);
                    }
                }
            }
        }
        true
    }
}

/// One call that changes a page: an insert of a tuple of the given length that succeeded,
/// a delete, or a change of the next-page link.
pub enum PageEvent {
    Inserted(nat),
    Deleted,
    Linked,
}

/// The space that the successful inserts of a sequence took: each tuple and its slot.
pub open spec fn space_taken(events: Seq<PageEvent>) -> int
    decreases events.len(),
{
    if events.len() == 0 {
        0
    } else {
        space_taken(events.drop_last()) + match events.last() {
            PageEvent::Inserted(len) => len + SLOT_SIZE,
            _ => 0,
        }
    }
}

/// Whether `pages[i + 1]` is what the `i`-th event made of `pages[i]`, as far as free space
/// goes: the contracts of `insert_tuple`, `mark_delete` and `set_next_page_id`.
pub open spec fn free_space_steps(pages: Seq<Seq<u8>>, events: Seq<PageEvent>) -> bool {
    &&& pages.len() == events.len() + 1
    &&& forall|i: int|
        0 <= i < events.len() ==> page_free_remaining(#[trigger] pages[i + 1]) == page_free_remaining(
            pages[i],
        ) - match events[i] {
            PageEvent::Inserted(len) => len + SLOT_SIZE,
            _ => 0,
        }
}

/// Free-space accounting: after `init` and any successful inserts, deletes and link
/// changes, the free space is the empty page's space less every inserted tuple and its
/// slot; deleting reclaims nothing.
pub proof fn lemma_free_space_accounting(pages: Seq<Seq<u8>>, events: Seq<PageEvent>)
    requires
        page_free_remaining(pages[0]) == PAGE_SIZE - HEADER_SIZE,
        free_space_steps(pages, events),
    ensures
        page_free_remaining(pages.last()) == PAGE_SIZE - HEADER_SIZE - space_taken(events),
    decreases events.len(),
{
    if events.len() > 0 {
        let n = events.len() - 1;
        let pp = pages.drop_last();
        let pe = events.drop_last();
        assert forall|i: int| 0 <= i < pe.len() implies page_free_remaining(#[trigger] pp[i + 1])
            == page_free_remaining(pp[i]) - match pe[i] {
            PageEvent::Inserted(len) => len + SLOT_SIZE,
            _ => 0,
        } by {
            assert(pp[i + 1] == pages[i + 1]);
            assert(page_free_remaining(pages[i + 1]) == page_free_remaining(pages[i]) - match events[i] {
                PageEvent::Inserted(len) => len + SLOT_SIZE,
                _ => 0,
            });
        }
        lemma_free_space_accounting(pp, pe);
        assert(page_free_remaining(pages[n + 1]) == page_free_remaining(pages[n]) - match events[n] {
            PageEvent::Inserted(len) => len + SLOT_SIZE,
            _ => 0,
        });
    }
}

/// One call that may change a page, as the tuples of its slots see it: an insert, a
/// delete of the given slot, or a change of the next-page link.
pub enum SlotEvent {
    Inserted,
    Deleted(int),
    Linked,
}

/// Whether `pages[i + 1]` is what the `i`-th event made of a well-formed `pages[i]`, as far
/// as the tuples of the existing slots go: the contracts of `insert_tuple`, `mark_delete`
/// and `set_next_page_id`. Each keeps the page well formed and the slot count from
/// shrinking, and leaves the tuple of every existing slot but a deleted one as it was.
pub open spec fn tuple_steps(pages: Seq<Seq<u8>>, events: Seq<SlotEvent>) -> bool {
    &&& pages.len() == events.len() + 1
    &&& forall|i: int|
        0 <= i < events.len() && page_wf(#[trigger] pages[i]) ==> {
            &&& page_wf(pages[i + 1])
            &&& page_num_slots(pages[i + 1]) >= page_num_slots(pages[i])
            &&& forall|s: int|
                0 <= s < page_num_slots(pages[i]) && events[i] != SlotEvent::Deleted(s)
                    ==> #[trigger] page_tuple(pages[i + 1], s) == page_tuple(pages[i], s)
        }
}

/// A tuple stays: once a slot holds a tuple, any sequence of inserts, link changes and
/// deletes of other slots leaves the page well formed and the slot's tuple as it was;
/// slots past the slot count read as no tuple.
pub proof fn lemma_tuple_persists(pages: Seq<Seq<u8>>, events: Seq<SlotEvent>, s: int)
    requires
        page_wf(pages[0]),
        0 <= s < page_num_slots(pages[0]),
        tuple_steps(pages, events),
        forall|i: int| 0 <= i < events.len() ==> #[trigger] events[i] != SlotEvent::Deleted(s),
    ensures
        page_wf(pages.last()),
        s < page_num_slots(pages.last()),
        page_tuple(pages.last(), s) == page_tuple(pages[0], s),
        forall|k: int| k >= page_num_slots(pages.last()) ==> #[trigger] page_tuple(pages.last(), k) is None,
    decreases events.len(),
{
    if events.len() > 0 {
        let n = events.len() - 1;
        let pp = pages.drop_last();
        let pe = events.drop_last();
        assert forall|i: int| 0 <= i < pe.len() && page_wf(#[trigger] pp[i]) implies {
            &&& page_wf(pp[i + 1])
            &&& page_num_slots(pp[i + 1]) >= page_num_slots(pp[i])
            &&& forall|t: int|
                0 <= t < page_num_slots(pp[i]) && pe[i] != SlotEvent::Deleted(t)
                    ==> #[trigger] page_tuple(pp[i + 1], t) == page_tuple(pp[i], t)
        } by {
            assert(pp[i] == pages[i]);
            assert(pp[i + 1] == pages[i + 1]);
            assert(pe[i] == events[i]);
            assert(page_wf(pages[i]));
        }
        assert forall|i: int| 0 <= i < pe.len() implies #[trigger] pe[i] != SlotEvent::Deleted(s) by {
            assert(pe[i] == events[i]);
        }
        lemma_tuple_persists(pp, pe, s);
        assert(pp.last() == pages[n]);
        assert(page_wf(pages[n]));
        assert(events[n] != SlotEvent::Deleted(s));
        assert(page_tuple(pages[n + 1], s) == page_tuple(pages[n], s));
    }
}

} // verus!
