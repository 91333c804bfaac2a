use short_queue::ShortQueue;

#[test]
fn basics() {
    let q = ShortQueue::<8>::new();

    assert_eq!(q.len(), 0);
    assert_eq!(q.is_empty(), true);
    assert_eq!(q.is_full(), false);
    assert_eq!(q.capacity(), 7)
}

#[test]
fn push() {
    let mut q = ShortQueue::<8>::new();

    for k in 0..7 {
        assert_eq!(q.push(k), true);
    }
    assert_eq!(q.is_full(), true);

    assert_eq!(q.push(8), false);
}

#[test]
fn pop() {
    const QSIZE: u8 = 11;

    let mut q = ShortQueue::<11>::new();

    for k in 0..QSIZE - 1 {
        assert_eq!(q.push(k), true);
    }

    for k in 0..QSIZE - 1 {
        assert_eq!(q.pop(), Some(k));
    }

    assert!(q.is_empty());
    assert_eq!(q.pop(), None);
}

#[test]
fn wrap() {
    const QSIZE: u8 = 6;

    let mut q = ShortQueue::<6>::new();

    q.push(0);
    q.pop();

    for k in 1..QSIZE {
        assert_eq!(q.push(k), true);
    }
    assert!(q.is_full());

    for k in 1..QSIZE {
        assert_eq!(q.pop(), Some(k));
    }

    assert!(q.is_empty());
    assert_eq!(q.pop(), None);
}

#[test]
fn drain() {
    const QSIZE: u8 = 250;

    let mut q = ShortQueue::<250>::new();

    q.push(0);
    q.pop();

    for k in 1..QSIZE {
        assert_eq!(q.push(k), true);
    }
    assert!(q.is_full());

    q.drain();

    assert!(q.is_empty());
}

#[test]
fn static_new() {
    let q = ShortQueue::<5>::new();
    assert!(q.is_empty());
    assert_eq!(q.capacity(), 4);
}

#[test]
fn split() {
    const QSIZE: u8 = 4;
    let mut q = ShortQueue::<4>::new();

    assert!(q.producer().push(5));
    assert_eq!(q.consumer().pop(), Some(5));

    {
        let mut p = q.producer();
        for k in 1..QSIZE {
            assert!(p.push(k));
        }
        assert!(!p.push(4));
    }

    let mut c = q.consumer();
    for k in 1..QSIZE {
        assert_eq!(c.pop(), Some(k));
    }
}
