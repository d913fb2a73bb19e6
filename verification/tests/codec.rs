use konsone::codec::{DecodeError, UnigramRow, BigramRow, TrigramRow};
use konsone::corpus::Keystroke;
use konsone::event::{Event, EventType, Timestamp};
use konsone::key::Key;
use konsone::store::{load, Store};

fn at(secs: u64) -> Timestamp {
    Timestamp { secs, nanos: 0 }
}

fn press(key: Key, name: &str, secs: u64) -> Event {
    Event { time: at(secs), name: Some(name.to_string()), event_type: EventType::KeyPress(key) }
}

fn stroke(key: Key, text: &str) -> Keystroke {
    Keystroke { key, interpreted: text.to_string() }
}

fn plain(key: Key, text: &str) -> (u64, String) {
    (key.code(), text.to_string())
}

fn populated() -> Store {
    let mut store = Store::new_at("keymap".to_string(), at(0));
    let typed = [
        (Key::KeyH, "h", 100),
        (Key::KeyE, "e", 100),
        (Key::KeyL, "l", 101),
        (Key::KeyL, "l", 101),
        (Key::KeyO, "o", 102),
        (Key::Space, " ", 110),
        (Key::KeyH, "H", 111),
        (Key::Unknown(77), "", 111),
        (Key::KeyE, "é", 112),
    ];
    for (key, name, secs) in typed {
        store.process_event_at(press(key, name, secs), at(secs));
    }
    store
}

#[test]
fn save_gives_the_bare_encoding_of_the_tables() {
    let mut store = Store::new_at("f".to_string(), at(0));
    store.process_event_at(press(Key::KeyA, "a", 5), at(5));
    store.process_event_at(press(Key::KeyA, "a", 50), at(50));
    let bytes = store.save().unwrap();
    let expected: Vec<u8> = vec![
        1, b'f', // the file name
        1, // one keystroke
        64, 0, 0, 0, 0, 0, 0, 0, // the number of the key
        1, b'a', // its text
        2, 0, 0, 0, // its count
        0, // no pairs
        0, // no triples
    ];
    assert_eq!(bytes, expected);
}

#[test]
fn save_of_an_empty_store() {
    let store = Store::new_at("".to_string(), at(0));
    assert_eq!(store.save().unwrap(), vec![0u8, 0, 0, 0]);
}

#[test]
fn saved_and_loaded_tables_are_equal() {
    let store = populated();
    let bytes = store.save().unwrap();
    let loaded = load(&bytes).unwrap();
    assert_eq!(loaded.filename(), "keymap");
    assert_eq!(loaded.heatmap.len(), store.heatmap.len());
    assert_eq!(loaded.bigram.len(), store.bigram.len());
    assert_eq!(loaded.trigram.len(), store.trigram.len());
    assert!(store.heatmap.len() >= 7);
    assert!(store.bigram.len() >= 5);
    assert!(store.trigram.len() >= 3);
    for i in 0..store.heatmap.len() {
        assert_eq!(loaded.heatmap.key_at(i), store.heatmap.key_at(i));
        assert_eq!(loaded.heatmap.count_at(i), store.heatmap.count_at(i));
        assert_eq!(loaded.heatmap.count(store.heatmap.key_at(i)), store.heatmap.count_at(i));
    }
    for i in 0..store.bigram.len() {
        assert_eq!(loaded.bigram.key_at(i), store.bigram.key_at(i));
        assert_eq!(loaded.bigram.count_at(i), store.bigram.count_at(i));
    }
    for i in 0..store.trigram.len() {
        assert_eq!(loaded.trigram.key_at(i), store.trigram.key_at(i));
        assert_eq!(loaded.trigram.count_at(i), store.trigram.count_at(i));
    }
    assert_eq!(loaded.heatmap.count(&stroke(Key::KeyL, "l")), 2);
    assert_eq!(loaded.heatmap.count(&stroke(Key::Unknown(77), "")), 1);
    assert_eq!(loaded.heatmap.count(&stroke(Key::KeyE, "é")), 1);
    // and saved again they give the same bytes
    assert_eq!(loaded.save().unwrap(), bytes);
}

#[test]
fn a_loaded_store_starts_with_an_empty_window() {
    let mut store = Store::new_at("f".to_string(), at(0));
    store.process_event_at(press(Key::KeyA, "a", 100), at(100));
    store.process_event_at(press(Key::KeyB, "b", 100), at(100));
    let mut loaded = load(&store.save().unwrap()).unwrap();
    assert_eq!(loaded.bigram.len(), 1);
    // the press follows nothing that the loaded store has seen
    loaded.process_event_at(press(Key::KeyC, "c", 100), at(100));
    assert_eq!(loaded.heatmap.len(), 3);
    assert_eq!(loaded.bigram.len(), 1);
    assert_eq!(loaded.trigram.len(), 0);
}

#[test]
fn saving_twice_gives_the_same_bytes() {
    let mut store = populated();
    let first = store.save().unwrap();
    store.mark_saved_at(at(5000));
    let second = store.save().unwrap();
    assert_eq!(first, second);
    store.mark_saved();
    assert_eq!(store.save().unwrap(), first);
    // events that are dropped change nothing either
    store.process_event_at(
        Event { time: at(6000), name: None, event_type: EventType::KeyRelease(Key::KeyA) },
        at(6000),
    );
    assert_eq!(store.save().unwrap(), first);
    store.process_event_at(press(Key::KeyZ, "z", 7000), at(7000));
    assert_ne!(store.save().unwrap(), first);
}

#[test]
fn load_refuses_bytes_that_are_no_store() {
    assert_eq!(load(&[]).err(), Some(DecodeError::Malformed));
    assert_eq!(load(&[1]).err(), Some(DecodeError::Malformed));
    assert_eq!(load(&[0, 1, 65]).err(), Some(DecodeError::Malformed));
    // text that is no UTF-8
    assert_eq!(load(&[1, 0xff, 0, 0, 0]).err(), Some(DecodeError::Malformed));
    let bytes = populated().save().unwrap();
    assert_eq!(load(&bytes[..bytes.len() - 1]).err(), Some(DecodeError::Malformed));
    assert_eq!(load(&bytes[..bytes.len() / 2]).err(), Some(DecodeError::Malformed));
}

#[test]
fn load_refuses_a_key_without_a_name() {
    let unigrams: Vec<UnigramRow> = vec![(plain(Key::KeyA, "a"), 1), ((105, "?".to_string()), 1)];
    let bigrams: Vec<BigramRow> = vec![];
    let trigrams: Vec<TrigramRow> = vec![];
    let bytes = serde_bare::to_vec(&("f".to_string(), unigrams, bigrams, trigrams)).unwrap();
    assert_eq!(load(&bytes).err(), Some(DecodeError::UnknownKey));

    let unigrams: Vec<UnigramRow> = vec![(plain(Key::KeyA, "a"), 1)];
    let bigrams: Vec<BigramRow> = vec![];
    let trigrams: Vec<TrigramRow> =
        vec![((plain(Key::KeyA, "a"), (0x2_0000_0000, "".to_string()), plain(Key::KeyA, "a")), 1)];
    let bytes = serde_bare::to_vec(&("f".to_string(), unigrams, bigrams, trigrams)).unwrap();
    assert_eq!(load(&bytes).err(), Some(DecodeError::UnknownKey));
}

#[test]
fn load_refuses_a_key_in_two_rows() {
    let unigrams: Vec<UnigramRow> =
        vec![(plain(Key::KeyA, "a"), 1), (plain(Key::KeyB, "b"), 2), (plain(Key::KeyA, "a"), 3)];
    let bigrams: Vec<BigramRow> = vec![];
    let trigrams: Vec<TrigramRow> = vec![];
    let bytes = serde_bare::to_vec(&("f".to_string(), unigrams, bigrams, trigrams)).unwrap();
    assert_eq!(load(&bytes).err(), Some(DecodeError::DuplicateKey));

    let unigrams: Vec<UnigramRow> = vec![(plain(Key::KeyA, "a"), 1)];
    let bigrams: Vec<BigramRow> = vec![
        ((plain(Key::KeyA, "a"), plain(Key::KeyA, "a")), 1),
        ((plain(Key::KeyA, "a"), plain(Key::KeyA, "a")), 1),
    ];
    let trigrams: Vec<TrigramRow> = vec![];
    let bytes = serde_bare::to_vec(&("f".to_string(), unigrams, bigrams, trigrams)).unwrap();
    assert_eq!(load(&bytes).err(), Some(DecodeError::DuplicateKey));

    // a key that stands for no key is what is reported where both are wrong
    let unigrams: Vec<UnigramRow> = vec![(plain(Key::KeyA, "a"), 1), (plain(Key::KeyA, "a"), 3)];
    let bigrams: Vec<BigramRow> = vec![((plain(Key::KeyA, "a"), (900, "".to_string())), 1)];
    let trigrams: Vec<TrigramRow> = vec![];
    let bytes = serde_bare::to_vec(&("f".to_string(), unigrams, bigrams, trigrams)).unwrap();
    assert_eq!(load(&bytes).err(), Some(DecodeError::UnknownKey));
}

#[test]
fn from_image_builds_the_tables_row_for_row() {
    let unigrams: Vec<UnigramRow> = vec![(plain(Key::KeyB, "b"), 4), (plain(Key::KeyA, "a"), 9)];
    let bigrams: Vec<BigramRow> = vec![((plain(Key::KeyB, "b"), plain(Key::KeyA, "a")), 3)];
    let trigrams: Vec<TrigramRow> =
        vec![((plain(Key::KeyB, "b"), plain(Key::KeyA, "a"), plain(Key::KeyB, "b")), 2)];
    let store =
        Store::from_image("dest".to_string(), &unigrams, &bigrams, &trigrams, at(42)).unwrap();
    assert_eq!(store.filename(), "dest");
    assert_eq!(store.last_save(), at(42));
    assert_eq!(store.heatmap.len(), 2);
    assert_eq!(store.heatmap.key_at(0), &stroke(Key::KeyB, "b"));
    assert_eq!(store.heatmap.count_at(0), 4);
    assert_eq!(store.heatmap.count(&stroke(Key::KeyA, "a")), 9);
    assert_eq!(store.bigram.count(&(stroke(Key::KeyB, "b"), stroke(Key::KeyA, "a"))), 3);
    assert_eq!(
        store.trigram.count(&(stroke(Key::KeyB, "b"), stroke(Key::KeyA, "a"), stroke(Key::KeyB, "b"))),
        2
    );
}
