use kernel_core::spinlock::SpinLock;

#[test]
fn one_guard_at_a_time() {
    let mut l = SpinLock::new(5u32);
    let mut g = l.lock();
    assert_eq!(5, *g.get());
    assert!(l.try_lock().is_none());
    assert!(l.try_lock().is_none());
    g.set(7);
    l.unlock(g);
    let g = l.try_lock().expect("free after unlock");
    assert_eq!(7, *g.get());
    l.unlock(g);
    let g = l.lock();
    assert_eq!(7, *g.get());
}
