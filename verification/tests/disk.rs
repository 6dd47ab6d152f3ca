use sql::disk::buffer_pool_manager::{FetchStep, FrameClaim};
use sql::disk::slotted_page::INVALID_PAGE_ID;
use sql::disk::table_heap::InsertStep;
use sql::disk::{BufferPoolManager, LRUReplacer, PageFile, SlottedPage, TableHeap, PAGE_SIZE, RID};
use sql::domain::id::RowId;
use sql::DomainError;

fn fresh_page() -> [u8; PAGE_SIZE] {
    let mut p = [0xAAu8; PAGE_SIZE];
    SlottedPage::init(&mut p);
    p
}

#[test]
fn a_fresh_page_is_empty() {
    let p = fresh_page();
    assert_eq!(SlottedPage::next_page_id(&p), INVALID_PAGE_ID);
    assert_eq!(SlottedPage::num_slots(&p), 0);
    assert_eq!(SlottedPage::free_space_pointer(&p), 4096);
    assert_eq!(SlottedPage::free_space_remaining(&p), 4088);
    assert_eq!(SlottedPage::get_tuple(&p, 0), None);
}

#[test]
fn tuples_are_stored_from_the_end_of_the_page() {
    let mut p = fresh_page();
    assert_eq!(SlottedPage::insert_tuple(&mut p, b"hello"), Ok(0));
    assert_eq!(SlottedPage::insert_tuple(&mut p, b"world!"), Ok(1));
    assert_eq!(SlottedPage::num_slots(&p), 2);
    assert_eq!(SlottedPage::free_space_pointer(&p), 4096 - 11);
    assert_eq!(SlottedPage::free_space_remaining(&p), 4096 - 11 - 8 - 8);
    assert_eq!(SlottedPage::get_tuple(&p, 0), Some(&b"hello"[..]));
    assert_eq!(SlottedPage::get_tuple(&p, 1), Some(&b"world!"[..]));
    assert_eq!(SlottedPage::get_tuple(&p, 2), None);
}

#[test]
fn deleted_tuples_are_gone_and_others_stay() {
    let mut p = fresh_page();
    SlottedPage::insert_tuple(&mut p, b"a").unwrap();
    SlottedPage::insert_tuple(&mut p, b"bb").unwrap();
    assert!(SlottedPage::mark_delete(&mut p, 0));
    assert_eq!(SlottedPage::get_tuple(&p, 0), None);
    assert_eq!(SlottedPage::get_tuple(&p, 1), Some(&b"bb"[..]));
    assert!(!SlottedPage::mark_delete(&mut p, 7));
}

#[test]
fn a_full_page_refuses_a_tuple() {
    let mut p = fresh_page();
    let big = vec![7u8; 4085];
    assert_eq!(
        SlottedPage::insert_tuple(&mut p, &big),
        Err(DomainError::Storage("Kapasitas halaman tidak mencukupi untuk tuple".to_string()))
    );
    let fits = vec![7u8; 4084];
    assert_eq!(SlottedPage::insert_tuple(&mut p, &fits), Ok(0));
    assert_eq!(SlottedPage::free_space_remaining(&p), 0);
    assert!(SlottedPage::insert_tuple(&mut p, b"").is_err());
}

#[test]
fn next_page_link() {
    let mut p = fresh_page();
    SlottedPage::set_next_page_id(&mut p, 42);
    assert_eq!(SlottedPage::next_page_id(&p), 42);
    assert_eq!(SlottedPage::num_slots(&p), 0);
}

#[test]
fn replacer_evicts_the_oldest_unpinned_frame() {
    let mut r = LRUReplacer::new(4);
    r.unpin(2);
    r.unpin(0);
    r.unpin(2);
    r.unpin(1);
    assert_eq!(r.size(), 3);
    r.pin(0);
    assert_eq!(r.size(), 2);
    r.pin(9);
    assert_eq!(r.victim(), Some(2));
    assert_eq!(r.victim(), Some(1));
    assert_eq!(r.victim(), None);
}

#[test]
fn pin_undoes_unpin() {
    let mut r = LRUReplacer::new(2);
    r.unpin(5);
    r.unpin(3);
    r.pin(3);
    assert_eq!(r.size(), 1);
    assert_eq!(r.victim(), Some(5));
}

#[test]
fn buffer_pool_protocol() {
    let mut bpm = BufferPoolManager::new(2);
    assert_eq!(bpm.pool_size(), 2);
    let FrameClaim { frame_id, evict } = bpm.new_page().unwrap();
    assert_eq!((frame_id, evict), (0, None));
    bpm.evict_frame(0);
    bpm.install_new_page(0, 0);
    bpm.frame_data_mut(0)[10] = 9;
    assert_eq!(bpm.unpin_page(0, true), Ok(()));
    assert_eq!(bpm.dirty_pages(), vec![0]);
    assert_eq!(bpm.dirty_frame(0), Some(0));
    bpm.mark_clean(0);
    assert_eq!(bpm.dirty_frame(0), None);
    match bpm.fetch_page(0).unwrap() {
        FetchStep::Hit(f) => assert_eq!(f, 0),
        _ => panic!("page 0 is resident"),
    }
    assert_eq!(bpm.frame_data(0)[10], 9);
    bpm.unpin_page(0, false).unwrap();

    let claim = bpm.new_page().unwrap();
    assert_eq!((claim.frame_id, claim.evict), (1, None));
    bpm.evict_frame(1);
    bpm.install_new_page(1, 1);
    bpm.unpin_page(1, false).unwrap();

    let claim = bpm.new_page().unwrap();
    assert_eq!((claim.frame_id, claim.evict), (0, Some((0, false))));
    bpm.evict_frame(0);
    bpm.install_new_page(0, 2);
    assert_eq!(bpm.frame_data(0)[10], 0);

    match bpm.fetch_page(0).unwrap() {
        FetchStep::Load { frame_id, evict } => {
            assert_eq!(frame_id, 1);
            assert_eq!(evict, Some((1, true)));
            bpm.evict_frame(frame_id);
            let data = [3u8; PAGE_SIZE];
            bpm.install_page(frame_id, 0, &data);
            assert_eq!(bpm.frame_data(1)[0], 3);
        }
        FetchStep::Hit(_) => panic!("page 0 was evicted"),
    }
    assert!(bpm.new_page().is_err());
    assert_eq!(
        bpm.unpin_page(99, false),
        Err(DomainError::Storage("PageOutOfBounds: 99".to_string()))
    );
}

#[test]
fn page_file_bookkeeping() {
    let mut f = PageFile::from_file_length(3 * 4096 + 100);
    assert_eq!(f.num_pages(), 3);
    assert_eq!(f.allocate_page(), 3);
    assert_eq!(f.num_pages(), 4);
    assert_eq!(PageFile::page_offset(2), 8192);
    assert_eq!(f.read_offset(3), Ok(12288));
    assert_eq!(
        f.read_offset(4),
        Err(DomainError::Storage("PageOutOfBounds: 4".to_string()))
    );
}

#[test]
fn heap_insert_steps_walk_the_chain() {
    let mut p = fresh_page();
    match TableHeap::insert_tuple_step(5, &mut p, b"row") {
        InsertStep::Inserted(rid) => assert_eq!(rid, RID::new(5, 0)),
        _ => panic!("the tuple fits"),
    }
    let mut full = fresh_page();
    SlottedPage::insert_tuple(&mut full, &vec![0u8; 4084]).unwrap();
    assert!(matches!(TableHeap::insert_tuple_step(1, &mut full, b"x"), InsertStep::Append));
    SlottedPage::set_next_page_id(&mut full, 8);
    assert!(matches!(TableHeap::insert_tuple_step(1, &mut full, b"x"), InsertStep::Next(8)));
}

#[test]
fn heap_new_pages_and_rids() {
    let mut p = [1u8; PAGE_SIZE];
    assert_eq!(TableHeap::insert_into_new_page(&mut p, b"abc"), Ok(0));
    assert_eq!(SlottedPage::next_page_id(&p), INVALID_PAGE_ID);
    assert_eq!(SlottedPage::get_tuple(&p, 0), Some(&b"abc"[..]));
    SlottedPage::insert_tuple(&mut p, b"d").unwrap();
    SlottedPage::insert_tuple(&mut p, b"e").unwrap();
    SlottedPage::mark_delete(&mut p, 1);
    assert_eq!(TableHeap::page_rids(7, &p), vec![RID::new(7, 0), RID::new(7, 2)]);
    let heap = TableHeap::from_first_page(7);
    assert_eq!(heap.first_page_id(), 7);
    let mut q = [0u8; PAGE_SIZE];
    assert!(TableHeap::insert_into_new_page(&mut q, &vec![0u8; 4085]).is_err());
}

#[test]
fn rids_pack_into_row_ids() {
    let rid = RID::new(3, 7);
    let row = RowId::from(rid);
    assert_eq!(row, RowId((3 << 16) | 7));
    assert_eq!(RID::from(row), rid);
    assert_eq!(RID::from(RowId(0x0001_0002_0003)), RID::new(0x0001_0002, 3));
}

#[test]
fn replacer_holds_the_frames_last_unpinned() {
    let mut r = LRUReplacer::new(1);
    r.unpin(1);
    r.unpin(2);
    r.unpin(3);
    r.pin(2);
    r.unpin(1);
    assert_eq!(r.victim(), Some(1));
    r.unpin(4);
    r.unpin(2);
    // 3, 4 and 2 were last unpinned; 1 was last taken as the victim.
    assert_eq!(r.size(), 3);
}

#[test]
fn free_space_shrinks_by_each_tuple_and_its_slot() {
    let mut p = fresh_page();
    SlottedPage::insert_tuple(&mut p, &[1u8; 100]).unwrap();
    SlottedPage::insert_tuple(&mut p, &[2u8; 7]).unwrap();
    SlottedPage::mark_delete(&mut p, 0);
    SlottedPage::set_next_page_id(&mut p, 3);
    assert_eq!(SlottedPage::free_space_remaining(&p), 4088 - (100 + 4) - (7 + 4));
}

#[test]
fn a_claimed_frame_is_not_handed_out_again() {
    let mut bpm = BufferPoolManager::new(3);
    let a = bpm.new_page().unwrap().frame_id;
    bpm.install_new_page(a, 10);
    let b = bpm.new_page().unwrap().frame_id;
    assert_ne!(a, b);
    bpm.install_new_page(b, 11);
    let c = bpm.fetch_page(12).unwrap();
    match c {
        FetchStep::Load { frame_id, evict } => {
            assert_ne!(frame_id, a);
            assert_ne!(frame_id, b);
            assert_eq!(evict, None);
        }
        FetchStep::Hit(_) => panic!("page 12 is not resident"),
    }
}

#[test]
fn a_tuple_survives_later_inserts_links_and_other_deletes() {
    let mut page = [0u8; PAGE_SIZE];
    SlottedPage::init(&mut page);
    let kept = SlottedPage::insert_tuple(&mut page, b"kept").unwrap();
    let other = SlottedPage::insert_tuple(&mut page, b"other").unwrap();
    SlottedPage::set_next_page_id(&mut page, 9);
    assert!(SlottedPage::mark_delete(&mut page, other));
    SlottedPage::insert_tuple(&mut page, b"third").unwrap();
    assert_eq!(SlottedPage::get_tuple(&page, kept), Some(&b"kept"[..]));
    assert_eq!(SlottedPage::get_tuple(&page, other), None);
    assert_eq!(SlottedPage::get_tuple(&page, SlottedPage::num_slots(&page)), None);
}
