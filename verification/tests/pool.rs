use underload::Pool;

#[test]
fn pool_acquire_release_roundtrip() {
    let mut p = Pool::new(1);
    assert!(p.try_acquire());
    assert!(!p.try_acquire());
    p.release();
    assert!(p.try_acquire());
    assert_eq!(p.available, 0);
    assert_eq!(p.capacity, 1);
}

#[test]
fn pool_try_acquire_many_is_all_or_none() {
    let mut p = Pool::new(2);
    assert!(!p.try_acquire_many(3));
    assert_eq!(p.available, 2);
    assert!(p.try_acquire_many(2));
    assert_eq!(p.available, 0);
    assert_eq!(p.capacity, 2);
}

#[test]
fn pool_forget_shrinks_capacity() {
    let mut p = Pool::new(2);
    assert!(p.try_acquire_many(2));
    p.forget_outstanding(2);
    assert_eq!(p.capacity, 0);
    assert_eq!(p.available, 0);
    assert!(!p.try_acquire());
}

#[test]
fn pool_add_permits_grows() {
    let mut p = Pool::new(1);
    assert!(p.try_acquire());
    p.add_permits(2);
    assert_eq!(p.capacity, 3);
    assert_eq!(p.available, 2);
    assert!(p.try_acquire());
    assert!(p.try_acquire());
    assert!(!p.try_acquire());
}
