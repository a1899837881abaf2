use reactor::completion::{IOCPevent, Selector, OVERLAPPED, OVERLAPPED_ENTRY, WSABUF, WSAOVERLAPPED};
use reactor::ids::IdAllocator;

#[test]
fn selector_new_creates_valid_port() {
    let mut ids = IdAllocator::new();
    let _selector = Selector::new(&mut ids).expect("create completion port failed");
}

#[test]
fn completion_selector_takes_a_fresh_id() {
    let mut ids = IdAllocator::new();
    let first = Selector::new(&mut ids).unwrap();
    let second = Selector::new(&mut ids).unwrap();
    assert_eq!(first.id(), 0);
    assert_eq!(second.id(), 1);
}

#[test]
fn issued_read_completes_with_reported_bytes() {
    // A read is issued for token 7 on a socket with no data yet; nothing is
    // retrievable until the peer sends 100 bytes, after which select returns
    // one record for token 7 with 100 bytes transferred.
    let mut ids = IdAllocator::new();
    let mut selector = Selector::new(&mut ids).unwrap();
    selector.register_soc_read_event(3, 7, vec![0u8; 1024]).unwrap();
    assert_eq!(selector.pending_count(), 1);

    let mut entries: Vec<OVERLAPPED_ENTRY> = Vec::new();
    let before = selector.select(&mut entries, 8, Some(0)).unwrap();
    assert_eq!(before, 0);
    assert!(entries.is_empty());

    assert!(selector.post_completion(7, 100));
    assert_eq!(selector.pending_count(), 0);

    let after = selector.select(&mut entries, 8, None).unwrap();
    assert_eq!(after, 1);
    assert_eq!(entries.len(), 1);
    assert_eq!(entries[0].id(), 7);
    assert_eq!(entries[0].bytes_transferred(), 100);
}

#[test]
fn completed_buffer_returns_to_the_pool() {
    let mut ids = IdAllocator::new();
    let mut selector = Selector::new(&mut ids).unwrap();
    assert_eq!(selector.pool_len(), 0);
    selector.register_soc_read_event(3, 7, vec![0u8; 16]).unwrap();
    assert_eq!(selector.pool_len(), 0);
    selector.post_completion(7, 16);
    assert_eq!(selector.pool_len(), 1);
}

#[test]
fn completion_for_unissued_token_changes_nothing() {
    let mut ids = IdAllocator::new();
    let mut selector = Selector::new(&mut ids).unwrap();
    selector.register_soc_read_event(3, 7, vec![0u8; 16]).unwrap();
    assert!(!selector.post_completion(8, 40));
    assert_eq!(selector.pending_count(), 1);
    assert_eq!(selector.pool_len(), 0);
    let mut entries: Vec<OVERLAPPED_ENTRY> = Vec::new();
    let n = selector.select(&mut entries, 8, Some(0)).unwrap();
    assert_eq!(n, 0);
    assert!(entries.is_empty());
}

#[test]
fn zero_bytes_transferred_is_reported_not_an_error() {
    // A transfer of zero bytes signals the peer closed the handle; the core
    // reports it like any completion and leaves the interpretation to the
    // caller.
    let mut ids = IdAllocator::new();
    let mut selector = Selector::new(&mut ids).unwrap();
    selector.register_soc_read_event(3, 9, vec![0u8; 16]).unwrap();
    assert!(selector.post_completion(9, 0));
    let mut entries: Vec<OVERLAPPED_ENTRY> = Vec::new();
    let n = selector.select(&mut entries, 8, None).unwrap();
    assert_eq!(n, 1);
    assert_eq!(entries[0].id(), 9);
    assert_eq!(entries[0].bytes_transferred(), 0);
}

#[test]
fn completion_batch_is_truncated_to_max_count() {
    let mut ids = IdAllocator::new();
    let mut selector = Selector::new(&mut ids).unwrap();
    for token in 0..3usize {
        selector.register_soc_read_event(3, token, vec![0u8; 8]).unwrap();
        assert!(selector.post_completion(token, 8));
    }
    let mut entries: Vec<OVERLAPPED_ENTRY> = Vec::new();
    let n = selector.select(&mut entries, 2, None).unwrap();
    assert_eq!(n, 2);
    assert_eq!(entries.len(), 2);
    assert_eq!(entries[0].id(), 0);
    assert_eq!(entries[1].id(), 1);
    let rest = selector.select(&mut entries, 2, None).unwrap();
    assert_eq!(rest, 1);
    assert_eq!(entries.len(), 1);
    assert_eq!(entries[0].id(), 2);
}

#[test]
fn same_token_completes_in_issue_order() {
    let mut ids = IdAllocator::new();
    let mut selector = Selector::new(&mut ids).unwrap();
    selector.register_soc_read_event(3, 5, vec![0u8; 8]).unwrap();
    selector.register_soc_read_event(4, 5, vec![0u8; 8]).unwrap();
    assert!(selector.post_completion(5, 1));
    assert!(selector.post_completion(5, 2));
    assert_eq!(selector.pending_count(), 0);
    let mut entries: Vec<OVERLAPPED_ENTRY> = Vec::new();
    let n = selector.select(&mut entries, 8, None).unwrap();
    assert_eq!(n, 2);
    assert_eq!(entries[0].bytes_transferred(), 1);
    assert_eq!(entries[1].bytes_transferred(), 2);
}

#[test]
fn wsabuf_keeps_length_and_handle() {
    let b = WSABUF::new(1024, 77);
    assert_eq!(b.len, 1024);
    assert_eq!(b.buf, 77);
}

#[test]
fn overlapped_records_start_zeroed() {
    let o = OVERLAPPED::zero();
    assert_eq!(o.internal, 0);
    assert_eq!(o.internal_high, 0);
    assert_eq!(o.offset, 0);
    assert_eq!(o.offset_high, 0);
    assert_eq!(o.h_event, 0);
    let w = WSAOVERLAPPED::zero();
    assert_eq!(w.internal, 0);
    assert_eq!(w.internal_high, 0);
    assert_eq!(w.offset, 0);
    assert_eq!(w.offset_high, 0);
    assert_eq!(w.h_event, 0);
}

#[test]
fn iocp_event_default_exists() {
    let e = IOCPevent::default();
    assert_eq!(e, IOCPevent {});
}
