use shared_handles::arc::{Arena, MyArc};
use std::cell::Cell;
use std::rc::Rc;

/// Bumps a shared counter when dropped, so a test can observe exactly
/// when the arena destroys a payload.
struct DetectDrop(Rc<Cell<u32>>);

impl Drop for DetectDrop {
    fn drop(&mut self) {
        self.0.set(self.0.get() + 1);
    }
}

#[test]
fn test() {
    let num_drops = Rc::new(Cell::new(0u32));
    let mut arena = Arena::new();
    let x = MyArc::new(&mut arena, ("Hello", DetectDrop(num_drops.clone())));
    let y = x.clone(&mut arena);
    assert_eq!(x.read(&arena).0, "Hello");
    assert_eq!(y.read(&arena).0, "Hello");
    x.dispose(&mut arena);
    assert_eq!(num_drops.get(), 0);
    y.dispose(&mut arena);
    assert_eq!(num_drops.get(), 1);
}

#[test]
fn upgrade_fails_after_last_strong_drop() {
    let num_drops = Rc::new(Cell::new(0u32));
    let mut arena = Arena::new();
    let x = MyArc::new(&mut arena, DetectDrop(num_drops.clone()));
    let w = MyArc::downgrade(&x, &mut arena);
    x.dispose(&mut arena);
    // The payload's destructor has already run before upgrade is called.
    assert_eq!(num_drops.get(), 1);
    assert!(w.upgrade(&mut arena).is_none());
    w.dispose(&mut arena);
    // Freeing the block did not destroy the payload a second time.
    assert_eq!(num_drops.get(), 1);
}

#[test]
fn upgrade_succeeds_while_strong_handles_live() {
    let mut arena = Arena::new();
    let x = MyArc::new(&mut arena, 7u64);
    let w = MyArc::downgrade(&x, &mut arena);
    let s = match w.upgrade(&mut arena) {
        Some(s) => s,
        None => panic!("upgrade must succeed while a strong handle lives"),
    };
    assert_eq!(*s.read(&arena), 7u64);
    assert_eq!(x.strong_count(&arena), 2);
    assert_eq!(x.handle_count(&arena), 3);
    s.dispose(&mut arena);
    w.dispose(&mut arena);
    x.dispose(&mut arena);
}

#[test]
fn weak_handles_outlive_payload() {
    let num_drops = Rc::new(Cell::new(0u32));
    let mut arena = Arena::new();
    let x = MyArc::new(&mut arena, DetectDrop(num_drops.clone()));
    let w1 = MyArc::downgrade(&x, &mut arena);
    let w2 = w1.clone(&mut arena);
    x.dispose(&mut arena);
    assert_eq!(num_drops.get(), 1);
    // The payload stays gone: every later upgrade attempt is empty.
    assert!(w1.upgrade(&mut arena).is_none());
    assert!(w1.upgrade(&mut arena).is_none());
    assert!(w2.upgrade(&mut arena).is_none());
    w1.dispose(&mut arena);
    assert!(w2.upgrade(&mut arena).is_none());
    w2.dispose(&mut arena);
    assert_eq!(num_drops.get(), 1);
}

#[test]
fn get_mut_requires_exclusivity() {
    let mut arena = Arena::new();
    let x = MyArc::new(&mut arena, 10u64);
    let y = x.clone(&mut arena);
    // Two strong handles: no exclusive access through either.
    assert!(MyArc::get_mut(&x, &mut arena).is_none());
    assert!(MyArc::get_mut(&y, &mut arena).is_none());
    y.dispose(&mut arena);
    // One handle left: mutation is granted and visible afterwards.
    match MyArc::get_mut(&x, &mut arena) {
        Some(v) => *v = 42u64,
        None => panic!("get_mut must succeed on the sole handle"),
    }
    assert_eq!(*x.read(&arena), 42u64);
    x.dispose(&mut arena);
}

#[test]
fn get_mut_blocked_by_weak_handle() {
    let mut arena = Arena::new();
    let x = MyArc::new(&mut arena, 1u64);
    let w = MyArc::downgrade(&x, &mut arena);
    // A live weak handle could race an upgrade: no exclusive access.
    assert!(MyArc::get_mut(&x, &mut arena).is_none());
    w.dispose(&mut arena);
    assert!(MyArc::get_mut(&x, &mut arena).is_some());
    x.dispose(&mut arena);
}

#[test]
fn counts_follow_the_protocol() {
    let mut arena = Arena::new();
    let x = MyArc::new(&mut arena, 0u64);
    assert_eq!(x.strong_count(&arena), 1);
    assert_eq!(x.handle_count(&arena), 1);
    let y = x.clone(&mut arena);
    assert_eq!(x.strong_count(&arena), 2);
    assert_eq!(x.handle_count(&arena), 2);
    let w = MyArc::downgrade(&x, &mut arena);
    assert_eq!(x.strong_count(&arena), 2);
    assert_eq!(x.handle_count(&arena), 3);
    y.dispose(&mut arena);
    assert_eq!(x.strong_count(&arena), 1);
    assert_eq!(x.handle_count(&arena), 2);
    w.dispose(&mut arena);
    assert_eq!(x.strong_count(&arena), 1);
    assert_eq!(x.handle_count(&arena), 1);
    x.dispose(&mut arena);
}

#[test]
fn blocks_are_independent() {
    let mut arena = Arena::new();
    let a = MyArc::new(&mut arena, 1u64);
    let b = MyArc::new(&mut arena, 2u64);
    a.dispose(&mut arena);
    // Disposing one object leaves the other untouched.
    assert_eq!(*b.read(&arena), 2u64);
    let w = MyArc::downgrade(&b, &mut arena);
    b.dispose(&mut arena);
    assert!(w.upgrade(&mut arena).is_none());
    w.dispose(&mut arena);
}
