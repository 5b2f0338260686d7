use dehydrator::key::Key;
use dehydrator::meas::N1;

fn key_of(v: u128) -> Key {
    Key::from_bytes(v.to_be_bytes())
}

fn value_of(k: &Key) -> u128 {
    u128::from_be_bytes(k.bytes())
}

#[test]
fn next_wraps_all_ones_to_zero() {
    let mut k = Key::from_bytes([0xFF; 16]);
    k.next();
    assert_eq!(k.bytes(), [0u8; 16]);
}

#[test]
fn prev_wraps_zero_to_all_ones() {
    let mut k = Key::from_bytes([0u8; 16]);
    k.prev();
    assert_eq!(k.bytes(), [0xFF; 16]);
}

#[test]
fn next_carries_into_more_significant_byte() {
    let mut b = [0u8; 16];
    b[14] = 0x01;
    b[15] = 0xFF;
    let mut k = Key::from_bytes(b);
    k.next();
    let mut want = [0u8; 16];
    want[14] = 0x02;
    want[15] = 0x00;
    assert_eq!(k.bytes(), want);
}

#[test]
fn next_then_prev_is_identity() {
    for v in [0u128, 1, 255, 256, 0xFFFF_FFFF, u128::MAX - 1, u128::MAX] {
        let k = key_of(v);
        let mut m = k;
        m.next();
        m.prev();
        assert_eq!(m.bytes(), k.bytes());
        assert!(m == k);
    }
}

#[test]
fn forward_then_distance_gives_count() {
    for (v, n) in [(0u128, 0usize), (7, 5), (u128::MAX - 2, 5), (u128::MAX, usize::MAX), (12345, usize::MAX)] {
        let k = key_of(v);
        let moved = Key::forward_checked(k, n).unwrap();
        assert_eq!(Key::steps_between(&moved, &k), Some(n));
    }
}

#[test]
fn forward_wraps_around() {
    let moved = Key::forward_checked(key_of(u128::MAX - 1), 3).unwrap();
    assert_eq!(value_of(&moved), 1);
}

#[test]
fn backward_wraps_around() {
    let moved = Key::backward_checked(key_of(1), 3).unwrap();
    assert_eq!(value_of(&moved), u128::MAX - 1);
    let back = Key::backward_checked(key_of(10), 4).unwrap();
    assert_eq!(value_of(&back), 6);
}

#[test]
fn distance_beyond_usize_is_none() {
    let far = key_of(usize::MAX as u128 + 1);
    let zero = key_of(0);
    assert_eq!(Key::steps_between(&far, &zero), None);
    let near = key_of(usize::MAX as u128);
    assert_eq!(Key::steps_between(&near, &zero), Some(usize::MAX));
    // a smaller key minus a larger one wraps to a huge distance
    assert_eq!(Key::steps_between(&zero, &key_of(1)), None);
}

#[test]
fn subtract_wraps_modulo() {
    let mut a = key_of(5);
    a.subtract(&key_of(7));
    assert_eq!(value_of(&a), u128::MAX - 1);
    let mut b = key_of(1000);
    b.subtract(&key_of(1));
    assert_eq!(value_of(&b), 999);
}

#[test]
fn to_usize_small_and_large() {
    assert_eq!(key_of(258).to_usize(), Some(258));
    assert_eq!(key_of(0).to_usize(), Some(0));
    assert_eq!(key_of(u128::MAX).to_usize(), None);
}

#[test]
fn to_str_is_decimal() {
    assert_eq!(key_of(0).to_str(), "0");
    assert_eq!(key_of(258).to_str(), "258");
    assert_eq!(key_of(u128::MAX).to_str(), "340282366920938463463374607431768211455");
}

#[test]
fn order_is_numeric() {
    let mut hi = [0u8; 16];
    hi[14] = 1;
    let mut lo = [0u8; 16];
    lo[15] = 0xFF;
    assert!(Key::from_bytes(hi) > Key::from_bytes(lo));
    assert!(key_of(3) < key_of(4));
    assert!(key_of(4) <= key_of(4));
    assert!(key_of(4) != key_of(5));
}

#[test]
fn first_and_last_of_enumeration() {
    let entries = vec![key_of(10), key_of(11), key_of(12)];
    assert_eq!(value_of(&Key::get_first_comp(&entries)), 10);
    assert_eq!(value_of(&Key::get_last_comp(&entries)), 12);
}

#[test]
fn first_and_last_of_empty_enumeration_are_zero() {
    let entries: Vec<Key> = Vec::new();
    assert_eq!(Key::get_first_comp(&entries).bytes(), [0u8; 16]);
    assert_eq!(Key::get_last_comp(&entries).bytes(), [0u8; 16]);
}

#[test]
fn inclusive_count_cases() {
    assert_eq!(Key::inclusive_count(&key_of(4), &key_of(4)), 1);
    assert_eq!(Key::inclusive_count(&key_of(4), &key_of(9)), 6);
    assert_eq!(Key::inclusive_count(&key_of(9), &key_of(4)), 0);
    assert_eq!(Key::inclusive_count(&key_of(0), &key_of(u128::MAX)), 0);
    assert_eq!(Key::inclusive_count(&key_of(0), &key_of(usize::MAX as u128 - 1)), usize::MAX);
    assert_eq!(Key::inclusive_count(&key_of(0), &key_of(usize::MAX as u128)), 0);
}

#[test]
fn export_of_two_batches() {
    let k1 = key_of(0x0102_0304);
    let mut k2 = k1;
    k2.next();
    let entries = vec![k1, k2];
    let first = Key::get_first_comp(&entries);
    let last = Key::get_last_comp(&entries);
    let count = Key::inclusive_count(&first, &last);
    assert_eq!(count, 2);
    let keys: Vec<Key> = (0..count).map(|i| Key::forward_checked(first, i).unwrap()).collect();
    assert_eq!(keys[0].to_str(), k1.to_str());
    assert_eq!(keys[1].to_str(), k2.to_str());
    assert!(keys[0] < keys[1]);
    let rows = 1 + count * N1;
    assert_eq!(rows, 201);
}
