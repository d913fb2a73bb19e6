use konsone::corpus::{BigramHeatmap, Generator, Keystroke, KeystrokeHeatmap, TrigramHeatmap};
use konsone::event::{Event, EventType, Timestamp};
use konsone::key::Key;
use konsone::store::Store;
use konsone::weights::{boost, sum};

fn ks(key: Key, text: &str) -> Keystroke {
    Keystroke { key, interpreted: text.to_string() }
}

fn a() -> Keystroke {
    ks(Key::KeyA, "a")
}

fn b() -> Keystroke {
    ks(Key::KeyB, "b")
}

fn c() -> Keystroke {
    ks(Key::KeyC, "c")
}

fn unigrams(rows: Vec<(Keystroke, u32)>) -> KeystrokeHeatmap {
    let mut table = KeystrokeHeatmap::new();
    for (key, count) in rows {
        assert!(table.insert_new(key, count));
    }
    table
}

#[test]
fn without_pairs_and_triples_the_weights_are_the_counts() {
    let table = unigrams(vec![(a(), 1), (b(), 3), (c(), 6)]);
    let mut generator = Generator::new(&table, &BigramHeatmap::new(), &TrigramHeatmap::new());
    assert_eq!(generator.len(), 3);
    assert_eq!(generator.keystroke_at(0), &a());
    assert_eq!(generator.keystroke_at(2), &c());
    assert_eq!(generator.boosted_weights(), Some(vec![1, 3, 6]));
    // whatever came before
    for _ in 0..20 {
        generator.generate_random_keystroke();
        assert_eq!(generator.boosted_weights(), Some(vec![1, 3, 6]));
    }
    generator.advance(1);
    generator.advance(2);
    assert_eq!(generator.boosted_weights(), Some(vec![1, 3, 6]));
}

#[test]
fn without_pairs_and_triples_the_draws_follow_the_counts() {
    let table = unigrams(vec![(a(), 1), (b(), 3)]);
    let mut generator = Generator::new(&table, &BigramHeatmap::new(), &TrigramHeatmap::new());
    let draws = 8000;
    let mut seen_b = 0;
    for _ in 0..draws {
        let k = generator.generate_random_keystroke();
        assert!(k == a() || k == b());
        if k == b() {
            seen_b += 1;
        }
    }
    // three draws in four, give or take
    assert!(seen_b > draws * 70 / 100, "b came {} times", seen_b);
    assert!(seen_b < draws * 80 / 100, "b came {} times", seen_b);
}

#[test]
fn a_pair_boosts_what_follows() {
    let table = unigrams(vec![(a(), 1), (b(), 1)]);
    let mut pairs = BigramHeatmap::new();
    assert!(pairs.insert_new((a(), b()), 100));
    let generator_for = || Generator::new(&table, &pairs, &TrigramHeatmap::new());

    let mut generator = generator_for();
    assert_eq!(generator.boosted_weights(), Some(vec![1, 1]));
    assert_eq!(generator.advance(0), a());
    assert_eq!(generator.boosted_weights(), Some(vec![1, 101]));
    assert_eq!(generator.advance(1), b());
    assert_eq!(generator.boosted_weights(), Some(vec![1, 1]));

    let trials = 1000;
    let mut seen_b = 0;
    for _ in 0..trials {
        let mut generator = generator_for();
        generator.advance(0);
        if generator.generate_random_keystroke() == b() {
            seen_b += 1;
        }
    }
    assert!(seen_b > trials * 95 / 100, "b followed a {} times", seen_b);
}

#[test]
fn a_triple_boosts_what_follows_its_two() {
    let table = unigrams(vec![(a(), 2), (b(), 3), (c(), 4)]);
    let mut pairs = BigramHeatmap::new();
    assert!(pairs.insert_new((a(), b()), 10));
    assert!(pairs.insert_new((b(), c()), 20));
    assert!(pairs.insert_new((b(), a()), 30));
    let mut triples = TrigramHeatmap::new();
    assert!(triples.insert_new((a(), b(), c()), 500));
    assert!(triples.insert_new((b(), a(), a()), 7000));
    let mut generator = Generator::new(&table, &pairs, &triples);
    generator.advance(0);
    assert_eq!(generator.boosted_weights(), Some(vec![2, 13, 4]));
    generator.advance(1);
    // after a, b: the pairs from b and the triple from a, b
    assert_eq!(generator.boosted_weights(), Some(vec![32, 3, 524]));
    generator.advance(0);
    // after b, a: the pair from a and the triple from b, a
    assert_eq!(generator.boosted_weights(), Some(vec![7002, 13, 4]));
    generator.advance(2);
    assert_eq!(generator.boosted_weights(), Some(vec![2, 3, 4]));
}

#[test]
fn pairs_of_unknown_keystrokes_are_left_out() {
    let table = unigrams(vec![(a(), 1), (b(), 1)]);
    let mut pairs = BigramHeatmap::new();
    assert!(pairs.insert_new((a(), c()), 100));
    assert!(pairs.insert_new((c(), a()), 100));
    assert!(pairs.insert_new((a(), b()), 5));
    let mut triples = TrigramHeatmap::new();
    assert!(triples.insert_new((a(), b(), c()), 100));
    assert!(triples.insert_new((c(), a(), b()), 100));
    let mut generator = Generator::new(&table, &pairs, &triples);
    generator.advance(0);
    assert_eq!(generator.boosted_weights(), Some(vec![1, 6]));
    generator.advance(1);
    assert_eq!(generator.boosted_weights(), Some(vec![1, 1]));
}

#[test]
fn a_keystroke_of_weight_zero_never_comes() {
    let table = unigrams(vec![(a(), 0), (b(), 5), (c(), 0)]);
    let mut generator = Generator::new(&table, &BigramHeatmap::new(), &TrigramHeatmap::new());
    for _ in 0..500 {
        assert_eq!(generator.next(), Some(b()));
    }
}

#[test]
fn nothing_comes_where_nothing_can_be_drawn() {
    let empty = KeystrokeHeatmap::new();
    let mut generator = Generator::new(&empty, &BigramHeatmap::new(), &TrigramHeatmap::new());
    assert_eq!(generator.len(), 0);
    assert!(!generator.is_ready());
    assert_eq!(generator.next(), None);

    let zeros = unigrams(vec![(a(), 0), (b(), 0)]);
    let mut generator = Generator::new(&zeros, &BigramHeatmap::new(), &TrigramHeatmap::new());
    assert_eq!(generator.boosted_weights(), Some(vec![0, 0]));
    assert!(!generator.is_ready());
    assert_eq!(generator.next(), None);

    // the sum of the weights is too large
    let large = unigrams(vec![(a(), u32::MAX), (b(), 1)]);
    let mut generator = Generator::new(&large, &BigramHeatmap::new(), &TrigramHeatmap::new());
    assert_eq!(generator.boosted_weights(), Some(vec![u32::MAX, 1]));
    assert!(!generator.is_ready());
    assert_eq!(generator.next(), None);

    // a boosted weight is too large
    let table = unigrams(vec![(a(), 1), (b(), 2)]);
    let mut pairs = BigramHeatmap::new();
    assert!(pairs.insert_new((a(), b()), u32::MAX - 1));
    let mut generator = Generator::new(&table, &pairs, &TrigramHeatmap::new());
    assert!(generator.is_ready());
    generator.advance(0);
    assert_eq!(generator.boosted_weights(), None);
    assert!(!generator.is_ready());
    assert_eq!(generator.next(), None);
    // nothing has changed: after b there is no boost
    generator.advance(1);
    assert!(generator.is_ready());
    assert!(generator.next().is_some());
}

#[test]
fn a_generator_keeps_the_snapshot_it_was_made_of() {
    let time = Timestamp { secs: 10, nanos: 0 };
    let mut store = Store::new_at("f".to_string(), time);
    let press = |key, name: &str| Event {
        time,
        name: Some(name.to_string()),
        event_type: EventType::KeyPress(key),
    };
    store.process_event_at(press(Key::KeyA, "a"), time);
    store.process_event_at(press(Key::KeyB, "b"), time);
    store.process_event_at(press(Key::KeyA, "a"), time);
    let mut generator = Generator::new(&store.heatmap, &store.bigram, &store.trigram);
    store.process_event_at(press(Key::KeyC, "c"), time);
    assert_eq!(generator.len(), 2);
    assert_eq!(generator.boosted_weights(), Some(vec![2, 1]));
    generator.advance(0);
    // a was followed by b once
    assert_eq!(generator.boosted_weights(), Some(vec![2, 2]));
    generator.advance(1);
    // b was followed by a once, and a, b by a once
    assert_eq!(generator.boosted_weights(), Some(vec![4, 1]));
    for _ in 0..50 {
        let k = generator.next().unwrap();
        assert!(k == a() || k == b());
    }
}

#[test]
fn boost_adds_the_links_in_their_order() {
    let mut weights = vec![1u32, 2, 3];
    assert!(boost(&mut weights, &vec![(0, 10), (2, 5), (0, 1)]));
    assert_eq!(weights, vec![12, 2, 8]);
    assert!(boost(&mut weights, &vec![]));
    assert_eq!(weights, vec![12, 2, 8]);
    let mut weights = vec![u32::MAX - 1, 0];
    assert!(boost(&mut weights, &vec![(0, 1)]));
    assert_eq!(weights, vec![u32::MAX, 0]);
    assert!(!boost(&mut weights, &vec![(1, 1), (0, 1)]));
}

#[test]
fn sum_adds_up_or_gives_up() {
    assert_eq!(sum(&vec![]), Some(0));
    assert_eq!(sum(&vec![1, 2, 3]), Some(6));
    assert_eq!(sum(&vec![u32::MAX - 1, 1]), Some(u32::MAX));
    assert_eq!(sum(&vec![u32::MAX, 1]), None);
    assert_eq!(sum(&vec![1, u32::MAX, 0]), None);
}
