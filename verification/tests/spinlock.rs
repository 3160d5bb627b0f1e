use shared_handles::spinlock::SpinLock;

#[test]
fn guard_gives_exclusive_access() {
    let mut lock = SpinLock::new(Vec::<i32>::new());
    let mut g = lock.lock();
    g.value_mut().push(1);
    lock.unlock(g);
    let mut g = lock.lock();
    g.value_mut().push(2);
    g.value_mut().push(2);
    lock.unlock(g);
    let g = lock.lock();
    assert_eq!(g.read().as_slice(), &[1, 2, 2]);
    lock.unlock(g);
}

#[test]
fn guard_read_write_round_trip() {
    let mut lock = SpinLock::new(5u64);
    let mut g = lock.lock();
    assert_eq!(*g.read(), 5u64);
    g.write(9u64);
    assert_eq!(*g.read(), 9u64);
    lock.unlock(g);
    let g = lock.lock();
    assert_eq!(g.into_inner(), 9u64);
}
