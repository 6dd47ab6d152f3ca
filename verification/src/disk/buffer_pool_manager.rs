use std::collections::HashMap;
use vstd::prelude::*;

use crate::disk::buffer_lru_replacer::{lemma_pin_subset, spec_pin, spec_unpin, FrameId, LRUReplacer};
use crate::disk::disk_manager::{out_of_bounds_message, PageId, PAGE_SIZE};
use crate::text::i64_to_decimal;
use crate::error::DomainError;

verus! {

broadcast use vstd::std_specs::hash::group_hash_axioms;

/// The message of the error when every frame is pinned.
pub open spec fn pool_full_message() -> Seq<char> {
    "Buffer pool penuh (invalid buffer size)"@
}

/// What one frame of the pool holds.
pub struct FrameView {
    pub page: Option<PageId>,
    pub pin_count: u32,
    pub dirty: bool,
    pub data: Seq<u8>,
}

/// The pool as a model: which page sits in which frame, the frames themselves, the
/// frames never used yet, and the frames that may be evicted, oldest first.
pub struct BufferPoolView {
    pub resident: Map<PageId, FrameId>,
    pub frames: Seq<FrameView>,
    pub free_list: Seq<FrameId>,
    pub lru: Seq<FrameId>,
}

/// The first step of a fetch.
pub enum FetchStep {
    /// The page is resident in this frame and now pinned once more.
    Hit(FrameId),
    /// The page must be read from disk into this frame. When `evict` names a page, that
    /// page leaves the frame first, and its bytes must be written back when `dirty` holds.
    Load { frame_id: FrameId, evict: Option<(PageId, bool)> },
}

/// A frame claimed for a new page, with the page it held before, if any, and whether that
/// page must be written back.
pub struct FrameClaim {
    pub frame_id: FrameId,
    pub evict: Option<(PageId, bool)>,
}

/// The in-memory part of the buffer pool: frames, page table, pin counts, dirty flags,
/// the free list and the replacer. Reading and writing pages is left to the caller, who
/// performs the disk transfers that the steps below ask for.
pub struct BufferPoolManager {
    replacer: LRUReplacer,
    page_table: HashMap<PageId, FrameId>,
    frame_to_page: Vec<Option<PageId>>,
    pool: Vec<[u8; PAGE_SIZE]>,
    pin_counts: Vec<u32>,
    is_dirty: Vec<bool>,
    free_list: Vec<FrameId>,
}

impl View for BufferPoolManager {
    type V = BufferPoolView;

    closed spec fn view(&self) -> BufferPoolView {
        BufferPoolView {
            resident: self.page_table@,
            frames: Seq::new(
                self.pool@.len(),
                |f: int|
                    FrameView {
                        page: self.frame_to_page@[f],
                        pin_count: self.pin_counts@[f],
                        dirty: self.is_dirty@[f],
                        data: self.pool@[f]@,
                    },
            ),
            free_list: self.free_list@,
            lru: self.replacer@,
        }
    }
}

/// The model after the frame's page is pinned once more.
pub open spec fn frame_pinned(v: BufferPoolView, f: FrameId) -> Seq<FrameView> {
    v.frames.update(f as int, FrameView { pin_count: (v.frames[f as int].pin_count + 1) as u32, ..v.frames[f as int] })
}

impl BufferPoolManager {
    spec fn lengths_ok(&self) -> bool {
        &&& self.frame_to_page@.len() == self.pool@.len()
        &&& self.pin_counts@.len() == self.pool@.len()
        &&& self.is_dirty@.len() == self.pool@.len()
    }

    spec fn table_ok(&self) -> bool {
        forall|p: PageId| #[trigger]
            self.page_table@.contains_key(p) ==> self.page_table@[p] < self.pool@.len()
                && self.frame_to_page@[self.page_table@[p] as int] == Some(p)
    }

    spec fn free_ok(&self) -> bool {
        forall|i: int| 0 <= i < self.free_list@.len() ==> #[trigger] self.free_list@[i] < self.pool@.len()
    }

    spec fn lru_ok(&self) -> bool {
        &&& forall|i: int|
            0 <= i < self.replacer@.len() ==> #[trigger] self.replacer@[i] < self.pool@.len()
                && self.pin_counts@[self.replacer@[i] as int] == 0
        &&& self.replacer@.no_duplicates()
    }

    /// The pool's invariant: its vectors agree in length, the page table points at frames
    /// that hold those pages, every frame number in use lies inside the pool, and a frame
    /// offered for eviction is never pinned (see `lemma_inv`).
    pub closed spec fn inv(&self) -> bool {
        &&& self.lengths_ok()
        &&& self.table_ok()
        &&& self.free_ok()
        &&& self.lru_ok()
    }

    /// What the invariant says of the model.
    pub proof fn lemma_inv(&self)
        requires
            self.inv(),
        ensures
            forall|p: PageId| #[trigger]
                self@.resident.contains_key(p) ==> self@.resident[p] < self@.frames.len()
                    && self@.frames[self@.resident[p] as int].page == Some(p),
            forall|i: int|
                0 <= i < self@.free_list.len() ==> #[trigger] self@.free_list[i] < self@.frames.len(),
            forall|i: int|
                0 <= i < self@.lru.len() ==> #[trigger] self@.lru[i] < self@.frames.len()
                    && self@.frames[self@.lru[i] as int].pin_count == 0,
            self@.lru.no_duplicates(),
    {
        assert forall|p: PageId| #[trigger] self@.resident.contains_key(p) implies self@.resident[p]
            < self@.frames.len() && self@.frames[self@.resident[p] as int].page == Some(p) by {
            assert(self.page_table@.contains_key(p));
        }
        assert forall|i: int| 0 <= i < self@.lru.len() implies #[trigger] self@.lru[i]
            < self@.frames.len() && self@.frames[self@.lru[i] as int].pin_count == 0 by {
            assert(self.replacer@[i] < self.pool@.len());
        }
    }

    /// A pool of `pool_size` empty frames, all on the free list; frame 0 is handed out first.
    pub fn new(pool_size: usize) -> (r: Self)
        ensures
            r.inv(),
            r@.frames.len() == pool_size,
            r@.resident == Map::<PageId, FrameId>::empty(),
            r@.lru == Seq::<FrameId>::empty(),
            r@.free_list.len() == pool_size,
            forall|i: int| 0 <= i < pool_size ==> #[trigger] r@.free_list[i] == pool_size - 1 - i,
            forall|f: int|
                0 <= f < pool_size ==> (#[trigger] r@.frames[f]).page is None && r@.frames[f].pin_count
                    == 0 && !r@.frames[f].dirty,
    {
        let mut free_list: Vec<FrameId> = Vec::with_capacity(pool_size);
        let mut i: usize = pool_size;
        while i > 0
            invariant
                i <= pool_size,
                free_list@.len() == pool_size - i,
                forall|j: int| 0 <= j < free_list@.len() ==> #[trigger] free_list@[j] == pool_size - 1 - j,
            decreases i,
        {
            i = i - 1;
            free_list.push(i);
        }
        let mut frame_to_page: Vec<Option<PageId>> = Vec::with_capacity(pool_size);
        let mut pool: Vec<[u8; PAGE_SIZE]> = Vec::with_capacity(pool_size);
        let mut pin_counts: Vec<u32> = Vec::with_capacity(pool_size);
        let mut is_dirty: Vec<bool> = Vec::with_capacity(pool_size);
        let mut k: usize = 0;
        while k < pool_size
            invariant
                k <= pool_size,
                frame_to_page@.len() == k,
                pool@.len() == k,
                pin_counts@.len() == k,
                is_dirty@.len() == k,
                forall|f: int| 0 <= f < k ==> #[trigger] frame_to_page@[f] is None,
                forall|f: int| 0 <= f < k ==> #[trigger] pin_counts@[f] == 0,
                forall|f: int| 0 <= f < k ==> !#[trigger] is_dirty@[f],
            decreases pool_size - k,
        {
            frame_to_page.push(None);
            pool.push([0u8; PAGE_SIZE]);
            pin_counts.push(0);
            is_dirty.push(false);
            k = k + 1;
        }
        let r = Self {
            replacer: LRUReplacer::new(pool_size),
            page_table: HashMap::new(),
            frame_to_page,
            pool,
            pin_counts,
            is_dirty,
            free_list,
        };
        assert(r@.resident =~= Map::<PageId, FrameId>::empty());
        r
    }

    /// The frame that a fetch or a new page will use: a never-used frame from the free list
    /// if there is one, else the frame that was unpinned the longest time ago.
    fn find_available_frame(&mut self) -> (r: Result<FrameId, DomainError>)
        requires
            old(self).inv(),
        ensures
            final(self).inv(),
            final(self)@.resident == old(self)@.resident,
            final(self)@.frames == old(self)@.frames,
            match r {
                Ok(f) => {
                    &&& f < old(self)@.frames.len()
                    &&& old(self)@.free_list.len() > 0 ==> {
                        &&& f == old(self)@.free_list.last()
                        &&& final(self)@.free_list == old(self)@.free_list.drop_last()
                        &&& final(self)@.lru == old(self)@.lru
                    }
                    &&& old(self)@.free_list.len() == 0 ==> {
                        &&& old(self)@.lru.len() > 0
                        &&& f == old(self)@.lru[0]
                        &&& old(self)@.frames[f as int].pin_count == 0
                        &&& final(self)@.lru == old(self)@.lru.drop_first()
                        &&& final(self)@.free_list == old(self)@.free_list
                    }
                },
                Err(e) => {
                    &&& old(self)@.free_list.len() == 0
                    &&& old(self)@.lru.len() == 0
                    &&& final(self)@ == old(self)@
                    &&& e matches DomainError::Storage(m) && m@ == pool_full_message()
                },
            },
    {
        if let Some(frame_id) = self.free_list.pop() {
            assert(self@.free_list =~= old(self)@.free_list.drop_last());
            Ok(frame_id)
        } else if let Some(frame_id) = self.replacer.victim() {
            assert(old(self)@.lru[0] == frame_id);
            assert forall|a: int, b: int|
                0 <= a < self.replacer@.len() && 0 <= b < self.replacer@.len() && a != b implies self.replacer@[a]
                != self.replacer@[b] by {
                assert(self.replacer@[a] == old(self).replacer@[a + 1]);
                assert(self.replacer@[b] == old(self).replacer@[b + 1]);
            }
            assert forall|i: int| 0 <= i < self.replacer@.len() implies #[trigger] self.replacer@[i]
                < self.pool@.len() && self@.frames[self.replacer@[i] as int].pin_count == 0 by {
                assert(self.replacer@[i] == old(self).replacer@[i + 1]);
            }
            Ok(frame_id)
        } else {
            Err(DomainError::storage("Buffer pool penuh (invalid buffer size)"))
        }
    }

    /// First step of a fetch. A resident page is pinned once more and its frame returned.
    /// Otherwise a frame is claimed for it; the caller writes back the frame's old page when
    /// the step says so, calls `evict_frame`, reads the page and calls `install_page`.
    pub fn fetch_page(&mut self, page_id: PageId) -> (r: Result<FetchStep, DomainError>)
        requires
            old(self).inv(),
            old(self)@.resident.contains_key(page_id) ==> old(self)@.frames[old(
                self,
            )@.resident[page_id] as int].pin_count < u32::MAX,
        ensures
            final(self).inv(),
            final(self)@.resident == old(self)@.resident,
            old(self)@.resident.contains_key(page_id) ==> {
                let f = old(self)@.resident[page_id];
                &&& r == Ok::<FetchStep, DomainError>(FetchStep::Hit(f))
                &&& final(self)@.frames == frame_pinned(old(self)@, f)
                &&& final(self)@.lru == spec_pin(old(self)@.lru, f)
                &&& final(self)@.free_list == old(self)@.free_list
            },
            !old(self)@.resident.contains_key(page_id) ==> match r {
                Ok(FetchStep::Load { frame_id, evict }) => {
                    &&& frame_id < old(self)@.frames.len()
                    &&& final(self)@.frames == old(self)@.frames
                    &&& evict == match old(self)@.frames[frame_id as int].page {
                        Some(p) => Some((p, old(self)@.frames[frame_id as int].dirty)),
                        None => None,
                    }
                    &&& old(self)@.free_list.len() > 0 ==> {
                        &&& frame_id == old(self)@.free_list.last()
                        &&& final(self)@.free_list == old(self)@.free_list.drop_last()
                        &&& final(self)@.lru == old(self)@.lru
                    }
                    &&& old(self)@.free_list.len() == 0 ==> {
                        &&& frame_id == old(self)@.lru[0]
                        &&& final(self)@.lru == old(self)@.lru.drop_first()
                        &&& final(self)@.free_list == old(self)@.free_list
                    }
                },
                Ok(FetchStep::Hit(_)) => false,
                Err(e) => {
                    &&& old(self)@.free_list.len() == 0
                    &&& old(self)@.lru.len() == 0
                    &&& final(self)@ == old(self)@
                    &&& e matches DomainError::Storage(m) && m@ == pool_full_message()
                },
            },
    {
        if let Some(frame_ref) = self.page_table.get(&page_id) {
            let frame_id = *frame_ref;
            let count = self.pin_counts[frame_id];
            self.pin_counts.set(frame_id, count + 1);
            self.replacer.pin(frame_id);
            proof {
                assert(self@.frames =~= frame_pinned(old(self)@, frame_id));
                lemma_pin_subset(old(self).replacer@, frame_id);
                assert forall|i: int|
                    0 <= i < self.replacer@.len() implies #[trigger] self.replacer@[i] < self.pool@.len()
                    && self@.frames[self.replacer@[i] as int].pin_count == 0 by {
                    assert(self.replacer@.contains(self.replacer@[i]));
                    assert(self.replacer@[i] != frame_id);
                    assert(old(self).replacer@.contains(self.replacer@[i]));
                    let j = choose|j: int| 0 <= j < old(self).replacer@.len() && old(self).replacer@[j] == self.replacer@[i];
                    assert(old(self).replacer@[j] < old(self).pool@.len());
                }
            }
            return Ok(FetchStep::Hit(frame_id));
        }
        let frame_id = self.find_available_frame()?;
        let evict = match self.frame_to_page[frame_id] {
            Some(old_page_id) => Some((old_page_id, self.is_dirty[frame_id])),
            None => None,
        };
        Ok(FetchStep::Load { frame_id, evict })
    }

    /// First step of creating a page: claims a frame. The caller allocates the page id,
    /// writes back the frame's old page when the claim says so, calls `evict_frame` and
    /// then `install_new_page`.
    pub fn new_page(&mut self) -> (r: Result<FrameClaim, DomainError>)
        requires
            old(self).inv(),
        ensures
            final(self).inv(),
            final(self)@.resident == old(self)@.resident,
            final(self)@.frames == old(self)@.frames,
            match r {
                Ok(claim) => {
                    &&& claim.frame_id < old(self)@.frames.len()
                    &&& claim.evict == match old(self)@.frames[claim.frame_id as int].page {
                        Some(p) => Some((p, old(self)@.frames[claim.frame_id as int].dirty)),
                        None => None,
                    }
                    &&& old(self)@.free_list.len() > 0 ==> {
                        &&& claim.frame_id == old(self)@.free_list.last()
                        &&& final(self)@.free_list == old(self)@.free_list.drop_last()
                        &&& final(self)@.lru == old(self)@.lru
                    }
                    &&& old(self)@.free_list.len() == 0 ==> {
                        &&& claim.frame_id == old(self)@.lru[0]
                        &&& final(self)@.lru == old(self)@.lru.drop_first()
                        &&& final(self)@.free_list == old(self)@.free_list
                    }
                },
                Err(e) => {
                    &&& old(self)@.free_list.len() == 0
                    &&& old(self)@.lru.len() == 0
                    &&& final(self)@ == old(self)@
                    &&& e matches DomainError::Storage(m) && m@ == pool_full_message()
                },
            },
    {
        let frame_id = self.find_available_frame()?;
        let evict = match self.frame_to_page[frame_id] {
            Some(old_page_id) => Some((old_page_id, self.is_dirty[frame_id])),
            None => None,
        };
        Ok(FrameClaim { frame_id, evict })
    }

    /// The page that a claimed frame held leaves the page table; its bytes count as written
    /// back.
    pub fn evict_frame(&mut self, frame_id: FrameId)
        requires
            old(self).inv(),
            frame_id < old(self)@.frames.len(),
        ensures
            final(self).inv(),
            final(self)@.free_list == old(self)@.free_list,
            final(self)@.lru == old(self)@.lru,
            match old(self)@.frames[frame_id as int].page {
                Some(p) => {
                    &&& final(self)@.resident == old(self)@.resident.remove(p)
                    &&& final(self)@.frames == old(self)@.frames.update(
                        frame_id as int,
                        FrameView { dirty: false, ..old(self)@.frames[frame_id as int] },
                    )
                },
                None => final(self)@ == old(self)@,
            },
    {
        if let Some(old_page_id) = self.frame_to_page[frame_id] {
            if self.is_dirty[frame_id] {
                self.is_dirty.set(frame_id, false);
            }
            self.page_table.remove(&old_page_id);
            assert(self@.frames =~= old(self)@.frames.update(
                frame_id as int,
                FrameView { dirty: false, ..old(self)@.frames[frame_id as int] },
            ));
        }
    }

    /// Last step of a fetch: the bytes read from disk fill the claimed frame, which now holds
    /// the page, pinned once and clean.
    pub fn install_page(&mut self, frame_id: FrameId, page_id: PageId, data: &[u8; PAGE_SIZE])
        requires
            old(self).inv(),
            frame_id < old(self)@.frames.len(),
            forall|p: PageId|
                #[trigger] old(self)@.resident.contains_key(p) && old(self)@.resident[p] == frame_id
                    ==> p == page_id,
        ensures
            final(self).inv(),
            final(self)@.resident == old(self)@.resident.insert(page_id, frame_id),
            final(self)@.frames == old(self)@.frames.update(
                frame_id as int,
                FrameView {
                    page: Some(page_id),
                    pin_count: 1,
                    data: data@,
                    ..old(self)@.frames[frame_id as int]
                },
            ),
            final(self)@.lru == spec_pin(old(self)@.lru, frame_id),
            final(self)@.free_list == old(self)@.free_list,
    {
        self.pool.set(frame_id, *data);
        assert forall|p: PageId|
            #[trigger] self.page_table@.contains_key(p) && self.page_table@[p] == frame_id implies p
            == page_id by {
            assert(old(self)@.resident.contains_key(p));
        }
        self.install(frame_id, page_id);
        assert(self@.frames =~= old(self)@.frames.update(
            frame_id as int,
            FrameView {
                page: Some(page_id),
                pin_count: 1,
                data: data@,
                ..old(self)@.frames[frame_id as int]
            },
        ));
    }

    /// Last step of creating a page: the claimed frame is zeroed and holds the new page,
    /// pinned once and dirty.
    pub fn install_new_page(&mut self, frame_id: FrameId, page_id: PageId)
        requires
            old(self).inv(),
            frame_id < old(self)@.frames.len(),
            forall|p: PageId|
                #[trigger] old(self)@.resident.contains_key(p) && old(self)@.resident[p] == frame_id
                    ==> p == page_id,
        ensures
            final(self).inv(),
            final(self)@.resident == old(self)@.resident.insert(page_id, frame_id),
            final(self)@.frames == old(self)@.frames.update(
                frame_id as int,
                FrameView {
                    page: Some(page_id),
                    pin_count: 1,
                    dirty: true,
                    data: Seq::new(PAGE_SIZE as nat, |i: int| 0u8),
                },
            ),
            final(self)@.lru == spec_pin(old(self)@.lru, frame_id),
            final(self)@.free_list == old(self)@.free_list,
    {
        self.pool.set(frame_id, [0u8; PAGE_SIZE]);
        assert forall|p: PageId|
            #[trigger] self.page_table@.contains_key(p) && self.page_table@[p] == frame_id implies p
            == page_id by {
            assert(old(self)@.resident.contains_key(p));
        }
        self.install(frame_id, page_id);
        self.is_dirty.set(frame_id, true);
        assert(self.pool@[frame_id as int]@ =~= Seq::new(PAGE_SIZE as nat, |i: int| 0u8));
        assert(self@.frames =~= old(self)@.frames.update(
            frame_id as int,
            FrameView {
                page: Some(page_id),
                pin_count: 1,
                dirty: true,
                data: Seq::new(PAGE_SIZE as nat, |i: int| 0u8),
            },
        ));
    }

    fn install(&mut self, frame_id: FrameId, page_id: PageId)
        requires
            old(self).inv(),
            frame_id < old(self).pool@.len(),
            forall|p: PageId|
                #[trigger] old(self).page_table@.contains_key(p) && old(self).page_table@[p] == frame_id
                    ==> p == page_id,
        ensures
            final(self).lengths_ok(),
            final(self).inv(),
            final(self).page_table@ == old(self).page_table@.insert(page_id, frame_id),
            final(self).frame_to_page@ == old(self).frame_to_page@.update(frame_id as int, Some(page_id)),
            final(self).pin_counts@ == old(self).pin_counts@.update(frame_id as int, 1),
            final(self).is_dirty@ == old(self).is_dirty@,
            final(self).pool@ == old(self).pool@,
            final(self).replacer@ == spec_pin(old(self).replacer@, frame_id),
            final(self).free_list@ == old(self).free_list@,
    {
        self.page_table.insert(page_id, frame_id);
        self.frame_to_page.set(frame_id, Some(page_id));
        self.pin_counts.set(frame_id, 1);
        self.replacer.pin(frame_id);
        proof {
            lemma_pin_subset(old(self).replacer@, frame_id);
            assert forall|i: int|
                0 <= i < self.replacer@.len() implies #[trigger] self.replacer@[i] < self.pool@.len()
                && self@.frames[self.replacer@[i] as int].pin_count == 0 by {
                assert(self.replacer@.contains(self.replacer@[i]));
                assert(self.replacer@[i] != frame_id);
                assert(old(self).replacer@.contains(self.replacer@[i]));
                let j = choose|j: int| 0 <= j < old(self).replacer@.len() && old(self).replacer@[j] == self.replacer@[i];
                assert(old(self).replacer@[j] < old(self).pool@.len());
            }
        }
    }

    /// Releases one pin on a resident page and records whether the caller changed it. When
    /// the last pin goes, the frame becomes a candidate for eviction. A page that is not
    /// resident is an error.
    pub fn unpin_page(&mut self, page_id: PageId, is_dirty: bool) -> (r: Result<(), DomainError>)
        requires
            old(self).inv(),
        ensures
            final(self).inv(),
            final(self)@.resident == old(self)@.resident,
            final(self)@.free_list == old(self)@.free_list,
            r is Ok <==> old(self)@.resident.contains_key(page_id),
            r is Err ==> final(self)@ == old(self)@ && (r->Err_0 matches DomainError::Storage(m)
                && m@ == out_of_bounds_message(page_id)),
            r is Ok ==> {
                let f = old(self)@.resident[page_id] as int;
                let fr = old(self)@.frames[f];
                &&& final(self)@.frames == old(self)@.frames.update(
                    f,
                    FrameView {
                        dirty: fr.dirty || is_dirty,
                        pin_count: if fr.pin_count > 0 {
                            (fr.pin_count - 1) as u32
                        } else {
                            0
                        },
                        ..fr
                    },
                )
                &&& final(self)@.lru == if fr.pin_count == 1 {
                    spec_unpin(old(self)@.lru, f as FrameId)
                } else {
                    old(self)@.lru
                }
            },
    {
        let frame_id = match self.page_table.get(&page_id) {
            Some(f) => *f,
            None => {
                let mut msg = String::from_str("PageOutOfBounds: ");
                msg.append(i64_to_decimal(page_id as i64).as_str());
                return Err(DomainError::Storage(msg));
            },
        };
        if is_dirty {
            self.is_dirty.set(frame_id, true);
        }
        let count = self.pin_counts[frame_id];
        if count > 0 {
            self.pin_counts.set(frame_id, count - 1);
            if count - 1 == 0 {
                self.replacer.unpin(frame_id);
            }
        }
        proof {
            let fr = old(self)@.frames[frame_id as int];
            assert(self@.frames =~= old(self)@.frames.update(
                frame_id as int,
                FrameView {
                    dirty: fr.dirty || is_dirty,
                    pin_count: if fr.pin_count > 0 {
                        (fr.pin_count - 1) as u32
                    } else {
                        0
                    },
                    ..fr
                },
            ));
            if count > 1 {
                assert(!old(self).replacer@.contains(frame_id)) by {
                    if old(self).replacer@.contains(frame_id) {
                        let j = choose|j: int| 0 <= j < old(self).replacer@.len() && old(self).replacer@[j] == frame_id;
                        assert(old(self)@.frames[old(self).replacer@[j] as int].pin_count == 0);
                    }
                }
            }
            assert forall|i: int|
                0 <= i < self.replacer@.len() implies #[trigger] self.replacer@[i] < self.pool@.len()
                && self@.frames[self.replacer@[i] as int].pin_count == 0 by {
                if i < old(self).replacer@.len() {
                    assert(self.replacer@[i] == old(self).replacer@[i]);
                    if count > 1 {
                        assert(old(self).replacer@[i] != frame_id);
                    }
                }
            }
        }
        Ok(())
    }

    /// How many times a resident page is pinned, or `None` for a page that is not resident.
    pub fn pin_count(&self, page_id: PageId) -> (r: Option<u32>)
        requires
            self.inv(),
        ensures
            match r {
                Some(c) => self@.resident.contains_key(page_id) && c == self@.frames[
                    self@.resident[page_id] as int
                ].pin_count,
                None => !self@.resident.contains_key(page_id),
            },
    {
        match self.page_table.get(&page_id) {
            Some(f) => Some(self.pin_counts[*f]),
            None => None,
        }
    }

    /// The frame whose bytes must be written to flush a page: the page's frame when it is
    /// resident and dirty.
    pub fn dirty_frame(&self, page_id: PageId) -> (r: Option<FrameId>)
        requires
            self.inv(),
        ensures
            match r {
                Some(f) => self@.resident.contains_key(page_id) && f == self@.resident[page_id]
                    && self@.frames[f as int].dirty,
                None => !self@.resident.contains_key(page_id) || !self@.frames[self@.resident[page_id] as int].dirty,
            },
    {
        match self.page_table.get(&page_id) {
            Some(f) => {
                let frame_id = *f;
                if self.is_dirty[frame_id] {
                    Some(frame_id)
                } else {
                    None
                }
            },
            None => None,
        }
    }

    /// Records that a frame's bytes have been written to disk.
    pub fn mark_clean(&mut self, frame_id: FrameId)
        requires
            old(self).inv(),
            frame_id < old(self)@.frames.len(),
        ensures
            final(self).inv(),
            final(self)@.resident == old(self)@.resident,
            final(self)@.lru == old(self)@.lru,
            final(self)@.free_list == old(self)@.free_list,
            final(self)@.frames == old(self)@.frames.update(
                frame_id as int,
                FrameView { dirty: false, ..old(self)@.frames[frame_id as int] },
            ),
    {
        self.is_dirty.set(frame_id, false);
        assert(self@.frames =~= old(self)@.frames.update(
            frame_id as int,
            FrameView { dirty: false, ..old(self)@.frames[frame_id as int] },
        ));
    }

    /// The resident pages whose frames are dirty, in frame order.
    pub fn dirty_pages(&self) -> (r: Vec<PageId>)
        requires
            self.inv(),
        ensures
            forall|i: int|
                0 <= i < r@.len() ==> #[trigger] self@.resident.contains_key(r@[i])
                    && self@.frames[self@.resident[r@[i]] as int].dirty,
            forall|p: PageId|
                #[trigger] self@.resident.contains_key(p) && self@.frames[self@.resident[p] as int].dirty
                    ==> r@.contains(p),
    {
        let mut out: Vec<PageId> = Vec::new();
        let n = self.pool.len();
        let mut f: usize = 0;
        while f < n
            invariant
                n == self.pool@.len(),
                self.inv(),
                f <= n,
                forall|i: int|
                    0 <= i < out@.len() ==> #[trigger] self.page_table@.contains_key(out@[i])
                        && self.is_dirty@[self.page_table@[out@[i]] as int],
                forall|p: PageId|
                    #[trigger] self.page_table@.contains_key(p) && self.page_table@[p] < f
                        && self.is_dirty@[self.page_table@[p] as int] ==> out@.contains(p),
            decreases n - f,
        {
            let ghost before = out@;
            if self.is_dirty[f] {
                if let Some(p) = self.frame_to_page[f] {
                    if let Some(g) = self.page_table.get(&p) {
                        if *g == f {
                            out.push(p);
                            assert(out@[out@.len() - 1] == p);
                        }
                    }
                }
            }
            assert forall|q: PageId|
                #[trigger] self.page_table@.contains_key(q) && self.page_table@[q] < f + 1
                    && self.is_dirty@[self.page_table@[q] as int] implies out@.contains(q) by {
                if self.page_table@[q] < f {
                    assert(before.contains(q));
                    let j = choose|j: int| 0 <= j < before.len() && before[j] == q;
                    assert(out@[j] == q);
                } else {
                    assert(self.frame_to_page@[f as int] == Some(q));
                    assert(out@[out@.len() - 1] == q);
                }
            }
            f = f + 1;
        }
        assert forall|p: PageId|
            #[trigger] self@.resident.contains_key(p) && self@.frames[self@.resident[p] as int].dirty
            implies out@.contains(p) by {
            assert(self.page_table@.contains_key(p));
        }
        assert forall|i: int| 0 <= i < out@.len() implies #[trigger] self@.resident.contains_key(
            out@[i],
        ) && self@.frames[self@.resident[out@[i]] as int].dirty by {
            assert(self.page_table@.contains_key(out@[i]));
        }
        out
    }

    /// Read access to the bytes of a frame.
    pub fn frame_data(&self, frame_id: FrameId) -> (r: &[u8; PAGE_SIZE])
        requires
            self.inv(),
            frame_id < self@.frames.len(),
        ensures
            r@ == self@.frames[frame_id as int].data,
    {
        &self.pool[frame_id]
    }

    /// Write access to the bytes of a frame; nothing else in the pool changes.
    pub fn frame_data_mut(&mut self, frame_id: FrameId) -> (r: &mut [u8; PAGE_SIZE])
        requires
            old(self).inv(),
            frame_id < old(self)@.frames.len(),
        ensures
            r@ == old(self)@.frames[frame_id as int].data,
            final(self).inv(),
            final(self)@.frames =~= old(self)@.frames.update(
                frame_id as int,
                FrameView { data: final(r)@, ..old(self)@.frames[frame_id as int] },
            ),
            final(self)@.resident == old(self)@.resident,
            final(self)@.free_list == old(self)@.free_list,
            final(self)@.lru == old(self)@.lru,
    {
        &mut self.pool[frame_id]
    }

    /// Number of frames in the pool.
    pub fn pool_size(&self) -> (r: usize)
        requires
            self.inv(),
        ensures
            r == self@.frames.len(),
    {
        self.pool.len()
    }
}

} // verus!
