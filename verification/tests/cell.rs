use sync_primitives::cell::claim;
use sync_primitives::cell::share;
use sync_primitives::cell::unclaim;
use sync_primitives::cell::unshare;
use sync_primitives::cell::BorrowState;
use sync_primitives::cell::Cell;
use sync_primitives::cell::RefCell;
use sync_primitives::one_shot::Channel;

#[test]
fn test_cell() {
    let cell = Cell::new(5);
    assert_eq!(cell.get(), 5);
    cell.set(10);
    assert_eq!(cell.get(), 10);
}

#[test]
fn test_cell_into_inner() {
    let cell = Cell::new(String::from("Hello"));
    let inner = cell.into_inner();
    assert_eq!(inner, "Hello");
}

#[test]
fn cell_replace_hands_back_the_old_value() {
    let cell = Cell::new(String::from("old"));
    assert_eq!(cell.replace(String::from("new")), "old");
    assert_eq!(cell.into_inner(), "new");
}

#[test]
fn test_refcell() {
    let refcell = RefCell::new();
    let data = std::cell::RefCell::new(vec![42]);
    {
        let lent = refcell.borrow().unwrap();
        assert_eq!(data.borrow()[0], 42);
        assert!(lent.release());
    }
    {
        let lent = refcell.borrow_mut().unwrap();
        data.borrow_mut().push(42);
        assert!(lent.release());
    }
    let lent = refcell.borrow().unwrap();
    assert_eq!(data.borrow().len(), 2);
    assert!(lent.release());
}

#[test]
fn refcell_refuses_what_would_alias() {
    let refcell = RefCell::new();
    assert_eq!(refcell.state(), BorrowState::Unshared);
    let a = refcell.borrow().unwrap();
    let b = refcell.borrow().unwrap();
    assert_eq!(refcell.state(), BorrowState::Shared(2));
    assert!(refcell.borrow_mut().is_none());
    assert!(a.release());
    assert_eq!(refcell.state(), BorrowState::Shared(1));
    assert!(refcell.borrow_mut().is_none());
    assert!(b.release());
    assert_eq!(refcell.state(), BorrowState::Unshared);
    let w = refcell.borrow_mut().unwrap();
    assert_eq!(refcell.state(), BorrowState::Exclusive);
    assert!(refcell.borrow().is_none());
    assert!(refcell.borrow_mut().is_none());
    assert!(w.release());
    assert_eq!(refcell.state(), BorrowState::Unshared);
}

#[test]
fn borrow_state_rules() {
    assert_eq!(share(BorrowState::Unshared), Some(BorrowState::Shared(1)));
    assert_eq!(share(BorrowState::Shared(4)), Some(BorrowState::Shared(5)));
    assert_eq!(share(BorrowState::Shared(usize::MAX)), None);
    assert_eq!(share(BorrowState::Exclusive), None);
    assert_eq!(claim(BorrowState::Unshared), Some(BorrowState::Exclusive));
    assert_eq!(claim(BorrowState::Shared(1)), None);
    assert_eq!(claim(BorrowState::Exclusive), None);
    assert_eq!(unshare(BorrowState::Shared(1)), Some(BorrowState::Unshared));
    assert_eq!(unshare(BorrowState::Shared(3)), Some(BorrowState::Shared(2)));
    assert_eq!(unshare(BorrowState::Shared(0)), None);
    assert_eq!(unshare(BorrowState::Unshared), None);
    assert_eq!(unshare(BorrowState::Exclusive), None);
    assert_eq!(unclaim(BorrowState::Exclusive), Some(BorrowState::Unshared));
    assert_eq!(unclaim(BorrowState::Unshared), None);
    assert_eq!(unclaim(BorrowState::Shared(1)), None);
}

#[test]
fn test_channel_single_thread() {
    let mut channel = Channel::new();
    let (sender, receiver) = channel.split();
    let slot = std::cell::Cell::new(None);

    slot.set(Some(42));
    sender.send();

    assert!(receiver.recv());
    let res = slot.take().unwrap();
    assert_eq!(res, 42);
}

#[test]
fn channel_without_message_is_not_ready() {
    let mut channel = Channel::new();
    let (sender, receiver) = channel.split();
    assert!(!receiver.recv());
    sender.send();
    // a new split empties the channel
    let (_sender, receiver) = channel.split();
    assert!(!receiver.recv());
}
