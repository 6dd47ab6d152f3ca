use vstd::prelude::*;

use crate::error::DomainError;
use crate::text::{i64_to_decimal, int_to_decimal};

verus! {

/// Size in bytes of one page on disk and of one frame in the buffer pool.
pub const PAGE_SIZE: usize = 4096;

/// Index of a page inside a table file.
pub type PageId = u32;

/// The page bookkeeping of a table file: how many pages it holds. The file itself is read
/// and written by the caller, at the offsets given here.
#[derive(Debug, Clone, Copy, PartialEq, Eq, Structural)]
pub struct PageFile {
    pub num_pages: PageId,
}

/// The byte offset of a page in its file.
pub open spec fn spec_page_offset(page_id: PageId) -> int {
    page_id * PAGE_SIZE
}

/// The message of the error for a page beyond the end of the file.
pub open spec fn out_of_bounds_message(page_id: PageId) -> Seq<char> {
    "PageOutOfBounds: "@ + int_to_decimal(page_id as int)
}

impl PageFile {
    /// The bookkeeping of a file of `file_length` bytes: its whole pages, counted modulo
    /// 2^32 as a page number holds them.
    pub fn from_file_length(file_length: u64) -> (r: Self)
        ensures
            r.num_pages == (file_length / PAGE_SIZE as u64) as u32,
    {
        let pages = file_length / PAGE_SIZE as u64;
        Self { num_pages: pages as u32 }
    }

    /// Hands out the next page number; the file grows by one page.
    pub fn allocate_page(&mut self) -> (r: PageId)
        requires
            old(self).num_pages < u32::MAX,
        ensures
            r == old(self).num_pages,
            final(self).num_pages == old(self).num_pages + 1,
    {
        let new_page_id = self.num_pages;
        self.num_pages = self.num_pages + 1;
        new_page_id
    }

    /// The byte offset at which a page is written.
    pub fn page_offset(page_id: PageId) -> (r: u64)
        ensures
            r == spec_page_offset(page_id),
    {
        assert(page_id * 4096 <= 0xffff_ffffu64 * 4096) by (nonlinear_arith)
            requires
                page_id <= 0xffff_ffffu64,
        ;
        page_id as u64 * PAGE_SIZE as u64
    }

    /// The byte offset from which a page is read, or an error for a page the file does
    /// not hold yet.
    pub fn read_offset(&self, page_id: PageId) -> (r: Result<u64, DomainError>)
        ensures
            page_id < self.num_pages ==> r == Ok::<u64, DomainError>(
                spec_page_offset(page_id) as u64,
            ),
            page_id >= self.num_pages ==> (r matches Err(DomainError::Storage(m)) && m@
                == out_of_bounds_message(page_id)),
    {
        if page_id >= self.num_pages {
            let mut msg = String::from_str("PageOutOfBounds: ");
            msg.append(i64_to_decimal(page_id as i64).as_str());
            return Err(DomainError::Storage(msg));
        }
        Ok(Self::page_offset(page_id))
    }

    pub fn num_pages(&self) -> (r: PageId)
        ensures
            r == self.num_pages,
    {
        self.num_pages
    }
}

} // verus!
