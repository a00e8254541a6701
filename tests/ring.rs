use sonex::RingBuffer;

#[test]
fn ring_is_first_in_first_out() {
    let mut r = RingBuffer::new(3, 0i32);
    assert!(r.is_empty());
    assert_eq!(r.capacity(), 3);
    r.push_back(1);
    r.push_back(2);
    r.push_back(3);
    assert!(r.is_full());
    assert_eq!(r.front(), 1);
    assert_eq!(r.back(), 3);
    assert_eq!(r.pop_front(), 1);
    assert_eq!(r.pop_front(), 2);
    assert_eq!(r.len(), 1);
    assert_eq!(r.pop_front(), 3);
    assert!(r.is_empty());
}

#[test]
fn ring_wraps_around_its_slots() {
    let mut r = RingBuffer::new(2, 0u8);
    let mut out = Vec::new();
    for x in 1..=7u8 {
        r.push_back(x);
        assert_eq!(r.back(), x);
        if r.is_full() {
            out.push(r.pop_front());
        }
    }
    assert_eq!(out, vec![1, 2, 3, 4, 5, 6]);
    assert_eq!(r.len(), 1);
    assert_eq!(r.front(), 7);
    assert_eq!(r.capacity(), 2);
}

#[test]
fn ring_duplicate_is_independent() {
    let mut a = RingBuffer::new(4, 0i64);
    a.push_back(10);
    a.push_back(20);
    let mut b = a.duplicate();
    assert_eq!(a.pop_front(), 10);
    b.push_back(30);
    assert_eq!(a.len(), 1);
    assert_eq!(b.len(), 3);
    assert_eq!(b.pop_front(), 10);
    assert_eq!(b.pop_front(), 20);
    assert_eq!(b.pop_front(), 30);
    assert_eq!(a.pop_front(), 20);
}
