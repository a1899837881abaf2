use reactor::errors::ElErr;
use reactor::events::Events;
use reactor::interests::Interests;
use reactor::readiness::{Event, Selector, EVFILT_READ, EV_ADD, EV_ENABLE, EV_ONESHOT};

#[test]
fn zero_event_is_all_zero() {
    let e = Event::zero();
    assert_eq!(e.ident, 0);
    assert_eq!(e.filter, 0);
    assert_eq!(e.flags, 0);
    assert_eq!(e.fflags, 0);
    assert_eq!(e.data, 0);
    assert_eq!(e.udata, 0);
}

#[test]
fn read_event_carries_fd_token_and_oneshot_flags() {
    let e = Event::new_read_event(7, 42);
    assert_eq!(e.ident, 7);
    assert_eq!(e.filter, EVFILT_READ);
    assert_eq!(e.flags, EV_ADD | EV_ENABLE | EV_ONESHOT);
    assert_eq!(e.fflags, 0);
    assert_eq!(e.data, 0);
    assert_eq!(e.udata, 42);
}

#[test]
fn selector_keeps_its_identifier() {
    let selector = Selector::new_with_id(11).unwrap();
    assert_eq!(selector.id(), 11);
}

#[test]
fn registered_socket_fires_once_with_its_token() {
    // A connected socket is registered under token 42 for Readable; the peer
    // sends bytes; a select then returns exactly one record with token 42.
    let mut selector = Selector::new_with_id(1).unwrap();
    selector.register(6, 42, Interests::readable()).unwrap();
    assert!(selector.notify_readable(6));
    let mut events = Events::with_capacity(8);
    selector.select(&mut events).unwrap();
    assert_eq!(events.len(), 1);
    assert_eq!(events.get(0).udata, 42);
}

#[test]
fn empty_interest_set_is_an_invalid_argument() {
    // Registration with an empty interest set fails, and no state changes:
    // a later readiness report for the handle delivers nothing.
    let mut selector = Selector::new_with_id(1).unwrap();
    let r = selector.register(6, 42, Interests::empty());
    assert_eq!(r, Err(ElErr::InvalidArgument));
    assert!(!selector.notify_readable(6));
    let mut events = Events::with_capacity(8);
    selector.select(&mut events).unwrap();
    assert_eq!(events.len(), 0);
}

#[test]
fn writable_interest_is_unsupported() {
    let mut selector = Selector::new_with_id(1).unwrap();
    let r = selector.register(6, 42, Interests::writable());
    assert_eq!(r, Err(ElErr::Unsupported));
    let both = selector.register(6, 42, Interests::new(true, true));
    assert_eq!(both, Err(ElErr::Unsupported));
}

#[test]
fn watch_fires_at_most_once_per_arm() {
    let mut selector = Selector::new_with_id(1).unwrap();
    selector.register(6, 42, Interests::readable()).unwrap();
    assert!(selector.notify_readable(6));
    assert!(!selector.notify_readable(6));
    assert!(!selector.notify_readable(6));
    let mut events = Events::with_capacity(8);
    selector.select(&mut events).unwrap();
    assert_eq!(events.len(), 1);
    selector.select(&mut events).unwrap();
    assert_eq!(events.len(), 0);
}

#[test]
fn fired_watch_stays_silent_while_others_fire() {
    let mut selector = Selector::new_with_id(1).unwrap();
    selector.register(6, 42, Interests::readable()).unwrap();
    selector.register(7, 43, Interests::readable()).unwrap();
    assert!(selector.notify_readable(6));
    // Reports for the consumed watch, interleaved with another handle's
    // report, add nothing for token 42.
    assert!(!selector.notify_readable(6));
    assert!(selector.notify_readable(7));
    assert!(!selector.notify_readable(6));
    let mut events = Events::with_capacity(8);
    selector.select(&mut events).unwrap();
    assert_eq!(events.len(), 2);
    assert_eq!(events.get(0).udata, 42);
    assert_eq!(events.get(1).udata, 43);
}

#[test]
fn reregistering_rearms_the_watch() {
    let mut selector = Selector::new_with_id(1).unwrap();
    selector.register(6, 42, Interests::readable()).unwrap();
    assert!(selector.notify_readable(6));
    assert!(!selector.notify_readable(6));
    selector.register(6, 43, Interests::readable()).unwrap();
    assert!(selector.notify_readable(6));
    let mut events = Events::with_capacity(8);
    selector.select(&mut events).unwrap();
    assert_eq!(events.len(), 2);
    assert_eq!(events.get(0).udata, 42);
    assert_eq!(events.get(1).udata, 43);
}

#[test]
fn unregistered_handle_never_fires() {
    let mut selector = Selector::new_with_id(1).unwrap();
    assert!(!selector.notify_readable(3));
    let mut events = Events::with_capacity(4);
    selector.select(&mut events).unwrap();
    assert_eq!(events.len(), 0);
}

#[test]
fn batch_is_truncated_to_capacity() {
    let mut selector = Selector::new_with_id(1).unwrap();
    for fd in 0..3 {
        selector.register(fd, 100 + fd as u64, Interests::readable()).unwrap();
        assert!(selector.notify_readable(fd));
    }
    let mut events = Events::with_capacity(2);
    selector.select(&mut events).unwrap();
    assert_eq!(events.len(), 2);
    assert_eq!(events.capacity(), 2);
    assert_eq!(events.get(0).udata, 100);
    assert_eq!(events.get(1).udata, 101);
    // The remaining record is reported by the next call.
    selector.select(&mut events).unwrap();
    assert_eq!(events.len(), 1);
    assert_eq!(events.get(0).udata, 102);
}

#[test]
fn clear_keeps_capacity_and_empties_buffer() {
    let mut selector = Selector::new_with_id(1).unwrap();
    selector.register(6, 9, Interests::readable()).unwrap();
    selector.notify_readable(6);
    let mut events = Events::with_capacity(4);
    selector.select(&mut events).unwrap();
    assert_eq!(events.len(), 1);
    events.clear();
    assert_eq!(events.len(), 0);
    assert!(events.is_empty());
    assert_eq!(events.capacity(), 4);
}
