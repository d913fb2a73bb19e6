use konsone::corpus::{BigramHeatmap, Keystroke, KeystrokeHeatmap};
use konsone::key::Key;
use konsone::tribuf::Buffer;

fn ks(key: Key, text: &str) -> Keystroke {
    Keystroke { key, interpreted: text.to_string() }
}

#[test]
fn buffer_starts_with_placeholders() {
    let buf = Buffer::<i32>::new();
    assert_eq!(buf.to_vec(), vec![0, 0, 0]);
    let buf = Buffer::<Option<u8>>::new();
    assert_eq!(buf.to_vec(), vec![None, None, None]);
}

#[test]
fn buffer_holds_the_latest_three_newest_first() {
    let mut buf = Buffer::<u32>::new();
    for n in 1..=10u32 {
        buf.push(n);
        let expected = vec![n, n.saturating_sub(1), n.saturating_sub(2)];
        assert_eq!(buf.to_vec(), expected);
        // reading changes nothing
        assert_eq!(buf.to_vec(), expected);
    }
    assert_eq!(buf.to_vec(), vec![10, 9, 8]);
}

#[test]
fn record_counts_and_keeps_the_order_of_first_occurrence() {
    let mut table = KeystrokeHeatmap::new();
    assert_eq!(table.len(), 0);
    table.record(ks(Key::KeyB, "b"));
    table.record(ks(Key::KeyA, "a"));
    table.record(ks(Key::KeyB, "b"));
    assert_eq!(table.len(), 2);
    assert_eq!(table.key_at(0), &ks(Key::KeyB, "b"));
    assert_eq!(table.count_at(0), 2);
    assert_eq!(table.key_at(1), &ks(Key::KeyA, "a"));
    assert_eq!(table.count_at(1), 1);
    assert_eq!(table.position(&ks(Key::KeyA, "a")), Some(1));
    assert_eq!(table.position(&ks(Key::KeyC, "c")), None);
    assert_eq!(table.get(&ks(Key::KeyB, "b")), Some(2));
    assert_eq!(table.get(&ks(Key::KeyC, "c")), None);
    assert_eq!(table.count(&ks(Key::KeyC, "c")), 0);
    assert!(table.contains(&ks(Key::KeyA, "a")));
    assert!(!table.contains(&ks(Key::KeyA, "b")));
}

#[test]
fn a_count_stops_at_the_largest_value() {
    let mut table = KeystrokeHeatmap::new();
    assert!(table.insert_new(ks(Key::KeyA, "a"), u32::MAX - 1));
    table.record(ks(Key::KeyA, "a"));
    assert_eq!(table.count(&ks(Key::KeyA, "a")), u32::MAX);
    table.record(ks(Key::KeyA, "a"));
    assert_eq!(table.count(&ks(Key::KeyA, "a")), u32::MAX);
    assert_eq!(table.len(), 1);
}

#[test]
fn insert_new_refuses_a_key_that_is_there() {
    let mut table = BigramHeatmap::new();
    assert!(table.insert_new((ks(Key::KeyA, "a"), ks(Key::KeyB, "b")), 5));
    assert!(!table.insert_new((ks(Key::KeyA, "a"), ks(Key::KeyB, "b")), 9));
    assert!(table.insert_new((ks(Key::KeyB, "b"), ks(Key::KeyA, "a")), 7));
    assert_eq!(table.len(), 2);
    assert_eq!(table.count(&(ks(Key::KeyA, "a"), ks(Key::KeyB, "b"))), 5);
    assert_eq!(table.count(&(ks(Key::KeyB, "b"), ks(Key::KeyA, "a"))), 7);
}

#[test]
fn every_key_has_its_own_number() {
    assert_eq!(Key::Alt.code(), 0);
    assert_eq!(Key::AltGr.code(), 1);
    assert_eq!(Key::Function.code(), 104);
    assert_eq!(Key::Unknown(0).code(), 0x1_0000_0000);
    assert_eq!(Key::Unknown(u32::MAX).code(), 0x1_ffff_ffff);
    let mut seen = 0;
    for code in 0..200u64 {
        match Key::from_code(code) {
            Some(key) => {
                assert_eq!(key.code(), code);
                seen += 1;
            }
            None => assert!(code >= 105),
        }
    }
    assert_eq!(seen, 105);
    assert_eq!(Key::from_code(0x1_0000_0007), Some(Key::Unknown(7)));
    assert_eq!(Key::from_code(0x2_0000_0000), None);
    assert_eq!(Key::from_code(u64::MAX), None);
    assert_eq!(Key::from_code(Key::KeyA.code()), Some(Key::KeyA));
}
