pub mod buffer_lru_replacer;
pub mod buffer_pool_manager;
pub mod disk_manager;
pub mod slotted_page;
pub mod table_heap;
pub mod table_rid;

pub use buffer_lru_replacer::{FrameId, LRUReplacer};
pub use buffer_pool_manager::BufferPoolManager;
pub use disk_manager::{PageFile, PageId, PAGE_SIZE};
pub use slotted_page::{SlotId, SlottedPage};
pub use table_heap::TableHeap;
pub use table_rid::RID;
