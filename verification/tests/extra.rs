//! Attached extra data: the single host-owned slot on an instance and its
//! sharing with cooperative sub-threads.

use lua::Extra;
use lua::State;

#[test]
fn extra_absent_before_attach() {
    let mut state = State::new();
    assert!(state.get_extra().is_none());
    assert!(state.set_extra(None).is_none());
}

#[test]
fn extra_attach_detach_roundtrip() {
    let mut state = State::new();
    let x = Extra(10);
    assert_eq!(state.set_extra(Some(x)), None);
    assert_eq!(state.get_extra(), Some(x));
    // Detaching returns the attached handle and leaves the slot empty.
    assert_eq!(state.set_extra(None), Some(x));
    assert!(state.get_extra().is_none());
}

#[test]
fn extra_attach_over_attach_returns_previous() {
    let mut state = State::new();
    let first = Extra(1);
    let second = Extra(2);
    assert_eq!(state.set_extra(Some(first)), None);
    // Attaching while attached hands the previous handle back, never
    // dropping it silently.
    assert_eq!(state.set_extra(Some(second)), Some(first));
    assert_eq!(state.get_extra(), Some(second));
}

#[test]
fn subthread_shares_extra_attached_before_spawn() {
    let mut state = State::new();
    let shared = Extra(7);
    state.set_extra(Some(shared));
    let thread = state.new_thread();
    // The sub-thread sees the same handle: shared by identity.
    assert_eq!(thread.get_extra(), Some(shared));
    assert_eq!(state.get_extra(), Some(shared));
}

#[test]
fn subthread_attachments_are_isolated() {
    let mut state = State::new();
    let mut thread = state.new_thread();
    assert!(thread.get_extra().is_none());
    // Attached only on the sub-thread: invisible from the root.
    let local = Extra(21);
    thread.set_extra(Some(local));
    assert_eq!(thread.get_extra(), Some(local));
    assert!(state.get_extra().is_none());
    // And the other way round.
    let root_only = Extra(22);
    state.set_extra(Some(root_only));
    assert_eq!(thread.get_extra(), Some(local));
    assert_eq!(state.get_extra(), Some(root_only));
}

#[test]
fn subthread_replacing_shared_handle_leaves_root_alone() {
    let mut state = State::new();
    let shared = Extra(30);
    state.set_extra(Some(shared));
    let mut thread = state.new_thread();
    let own = Extra(31);
    assert_eq!(thread.set_extra(Some(own)), Some(shared));
    assert_eq!(thread.get_extra(), Some(own));
    assert_eq!(state.get_extra(), Some(shared));
}

#[test]
fn new_thread_pushes_thread_value() {
    let mut state = State::new();
    let thread = state.new_thread();
    assert_eq!(state.get_top(), 1);
    assert!(state.is_thread(-1));
    assert_eq!(thread.get_top(), 0);
    // The sub-thread handle is non-owning, so only the root may be closed.
    state.close();
}
