use mesh_channels::borrow::BorrowState;
use mesh_channels::cell::ChannelCell;
use mesh_channels::channel::DynChannel;
use mesh_channels::tags::{ChannelKeyType, ChannelValueType};

#[test]
fn free_channel_takes_a_reader_or_a_writer() {
    assert_eq!(BorrowState::Free.acquire_read(), Some(BorrowState::Shared(1)));
    assert_eq!(BorrowState::Free.acquire_write(), Some(BorrowState::Exclusive));
    assert_eq!(BorrowState::Free.release_read(), None);
    assert_eq!(BorrowState::Free.release_write(), None);
}

#[test]
fn readers_are_counted() {
    assert_eq!(BorrowState::Shared(1).acquire_read(), Some(BorrowState::Shared(2)));
    assert_eq!(BorrowState::Shared(41).acquire_read(), Some(BorrowState::Shared(42)));
    assert_eq!(BorrowState::Shared(2).release_read(), Some(BorrowState::Shared(1)));
    assert_eq!(BorrowState::Shared(1).release_read(), Some(BorrowState::Free));
    assert_eq!(BorrowState::Shared(1).acquire_write(), None);
    assert_eq!(BorrowState::Shared(7).release_write(), None);
    assert_eq!(
        BorrowState::Shared(u64::MAX - 1).acquire_read(),
        Some(BorrowState::Shared(u64::MAX))
    );
    assert_eq!(BorrowState::Shared(u64::MAX).acquire_read(), None);
}

#[test]
fn writer_keeps_everyone_out() {
    assert_eq!(BorrowState::Exclusive.acquire_read(), None);
    assert_eq!(BorrowState::Exclusive.acquire_write(), None);
    assert_eq!(BorrowState::Exclusive.release_read(), None);
    assert_eq!(BorrowState::Exclusive.release_write(), Some(BorrowState::Free));
}

#[test]
fn many_readers_come_and_go() {
    let mut state = BorrowState::Free;
    for n in 1..=1000u64 {
        state = state.acquire_read().unwrap();
        assert_eq!(state, BorrowState::Shared(n));
        assert_eq!(state.acquire_write(), None);
    }
    for n in (0..1000u64).rev() {
        state = state.release_read().unwrap();
        if n == 0 {
            assert_eq!(state, BorrowState::Free);
        } else {
            assert_eq!(state, BorrowState::Shared(n));
        }
    }
    assert_eq!(state.acquire_write(), Some(BorrowState::Exclusive));
}

#[test]
fn cell_hands_its_channel_to_the_writer_and_takes_it_back() {
    let mut cell = ChannelCell::new(DynChannel::new(ChannelKeyType::FaceId, ChannelValueType::bool));
    assert_eq!(cell.borrow_state(), BorrowState::Free);
    assert!(cell.peek().is_some());
    assert!(cell.acquire_read());
    assert!(cell.acquire_read());
    assert_eq!(cell.borrow_state(), BorrowState::Shared(2));
    assert!(cell.acquire_write().is_none());
    assert!(cell.release_read());
    assert!(cell.release_read());
    assert!(!cell.release_read());
    let channel = cell.acquire_write().unwrap();
    assert_eq!(cell.borrow_state(), BorrowState::Exclusive);
    assert!(cell.peek().is_none());
    assert!(!cell.acquire_read());
    assert!(cell.acquire_write().is_none());
    assert!(cell.release_write(channel).is_none());
    assert_eq!(cell.borrow_state(), BorrowState::Free);
    assert!(cell.peek().is_some());
    let spare = DynChannel::new(ChannelKeyType::FaceId, ChannelValueType::bool);
    assert!(cell.release_write(spare).is_some());
    assert_eq!(cell.borrow_state(), BorrowState::Free);
    assert!(cell.into_channel().is_some());
}
