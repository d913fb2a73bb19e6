//! The store: three frequency tables fed from a window over the latest key
//! presses.

use vstd::prelude::*;
use crate::codec::{
    bare_decode, bare_decoding, bare_encode, bare_encoding, check_known, lemma_rows_round_trip,
    rows_back, rows_known, rows_out, table_in, table_out, BigramRow, DecodeError, PersistError,
    TrigramRow, UnigramRow,
};
use crate::corpus::{
    event_to_keystroke, keystroke_of, BigramHeatmap, Keystroke, KeystrokeHeatmap, KeystrokeView,
    TrigramHeatmap,
};
use crate::event::{is_within_delay, within_delay, Event, EventType, Timestamp};
use crate::heatmap::{distinct_keys, recorded_in, rows_map, Heatmap};
use crate::totals::{lemma_recorded_total, map_total};
use crate::tribuf::{pushed, Buffer};

verus! {

/// A press counts as following the one before it when it comes less than
/// this many seconds after it.
pub const BIGRAM_WINDOW_SECS: u64 = 2;

/// Three presses in a row count as a triple when, besides, the middle one
/// came less than this many seconds after the first.
pub const TRIGRAM_WINDOW_SECS: u64 = 4;

/// The store is due to be saved once more than this many whole seconds have
/// passed since it last was.
pub const SAVE_INTERVAL_SECS: u64 = 600;

/// Store for keypresses.
pub struct Store {
    /// Heatmap of keypresses.
    pub heatmap: KeystrokeHeatmap,
    /// Heatmap of bigrams.
    pub bigram: BigramHeatmap,
    /// Heatmap of trigrams.
    pub trigram: TrigramHeatmap,
    ngrams: Buffer<Option<Event>>,
    last_save: Timestamp,
    filename: String,
}

/// What a store holds: the three tables as mappings, the latest three
/// presses, newest first (`None` where there was none yet), the time of the
/// last save and the name of the file it is saved to.
pub struct StoreView {
    pub heatmap: Map<KeystrokeView, u32>,
    pub bigram: Map<(KeystrokeView, KeystrokeView), u32>,
    pub trigram: Map<(KeystrokeView, KeystrokeView, KeystrokeView), u32>,
    pub window: Seq<Option<Event>>,
    pub last_save: Timestamp,
    pub filename: Seq<char>,
}

/// What is saved of a store: the name of its file and the rows of its three
/// tables in their stored form.
pub struct StoreImage {
    pub filename: Seq<char>,
    pub unigrams: Seq<((u64, Seq<char>), u32)>,
    pub bigrams: Seq<(((u64, Seq<char>), (u64, Seq<char>)), u32)>,
    pub trigrams: Seq<(((u64, Seq<char>), (u64, Seq<char>), (u64, Seq<char>)), u32)>,
}

/// What is wrong with an image, if anything: a row whose key has a number
/// that stands for no key, or else a table with two rows under one key.
pub open spec fn image_error(image: StoreImage) -> Option<DecodeError> {
    if !(rows_known::<Keystroke>(image.unigrams) && rows_known::<(Keystroke, Keystroke)>(
        image.bigrams,
    ) && rows_known::<(Keystroke, Keystroke, Keystroke)>(image.trigrams)) {
        Some(DecodeError::UnknownKey)
    } else if !(distinct_keys(rows_back::<Keystroke>(image.unigrams)) && distinct_keys(
        rows_back::<(Keystroke, Keystroke)>(image.bigrams),
    ) && distinct_keys(rows_back::<(Keystroke, Keystroke, Keystroke)>(image.trigrams))) {
        Some(DecodeError::DuplicateKey)
    } else {
        None
    }
}

/// Whether the newest press of the window `w` follows the one before it
/// closely enough for the two to count as a pair.
pub open spec fn bigram_due(w: Seq<Option<Event>>) -> bool {
    &&& w[0] is Some
    &&& w[1] is Some
    &&& within_delay(w[0].unwrap().time, w[1].unwrap().time, BIGRAM_WINDOW_SECS)
}

/// Whether the three presses of the window `w` count as a triple: the newest
/// two are a pair, and the middle one follows the oldest closely enough.
pub open spec fn trigram_due(w: Seq<Option<Event>>) -> bool {
    &&& bigram_due(w)
    &&& w[2] is Some
    &&& within_delay(w[1].unwrap().time, w[2].unwrap().time, TRIGRAM_WINDOW_SECS)
}

/// The store `s` after the event `e` went into the window and the tables: `e`
/// is counted as a keystroke, with the press before it as a pair where
/// `bigram_due` holds, and with the two before it as a triple where
/// `trigram_due` holds.
pub open spec fn recorded(s: StoreView, e: Event) -> StoreView {
    let w = pushed(s.window, Some(e));
    let newest = keystroke_of(e);
    StoreView {
        heatmap: recorded_in(s.heatmap, newest),
        bigram: if bigram_due(w) {
            recorded_in(s.bigram, (keystroke_of(w[1].unwrap()), newest))
        } else {
            s.bigram
        },
        trigram: if trigram_due(w) {
            recorded_in(
                s.trigram,
                (keystroke_of(w[2].unwrap()), keystroke_of(w[1].unwrap()), newest),
            )
        } else {
            s.trigram
        },
        window: w,
        last_save: s.last_save,
        filename: s.filename,
    }
}

/// The store `s` after the event `e` was processed: a key press is recorded,
/// any other event changes nothing.
pub open spec fn processed(s: StoreView, e: Event) -> StoreView {
    if e.is_press() {
        recorded(s, e)
    } else {
        s
    }
}

/// The store `s` after each of `events` was processed, first to last.
pub open spec fn processed_all(s: StoreView, events: Seq<Event>) -> StoreView
    decreases events.len(),
{
    if events.len() == 0 {
        s
    } else {
        processed(processed_all(s, events.drop_last()), events.last())
    }
}

/// The number of key presses among `events`.
pub open spec fn presses(events: Seq<Event>) -> nat
    decreases events.len(),
{
    if events.len() == 0 {
        0
    } else {
        presses(events.drop_last()) + if events.last().is_press() {
            1nat
        } else {
            0nat
        }
    }
}

/// Every key press is counted as a keystroke, and nothing else is: after any
/// events the counts of the keystrokes sum up to what they were plus the
/// number of presses. This holds while the sum is a `u32`; beyond that a
/// count may have stopped at the largest `u32`.
pub proof fn lemma_keystrokes_count_presses(s: StoreView, events: Seq<Event>)
    requires
        s.heatmap.dom().finite(),
        map_total(s.heatmap) + presses(events) <= u32::MAX,
    ensures
        processed_all(s, events).heatmap.dom().finite(),
        map_total(processed_all(s, events).heatmap) == map_total(s.heatmap) + presses(events),
    decreases events.len(),
{
    if events.len() > 0 {
        lemma_keystrokes_count_presses(s, events.drop_last());
        if events.last().is_press() {
            lemma_recorded_total(
                processed_all(s, events.drop_last()).heatmap,
                keystroke_of(events.last()),
            );
        }
    }
}

/// A store that has seen nothing holds as many keystrokes, by the sum of its
/// counts, as there were key presses among the events it then processed.
pub proof fn lemma_fresh_store_counts_presses(filename: Seq<char>, events: Seq<Event>)
    requires
        presses(events) <= u32::MAX,
    ensures
        map_total(processed_all(Store::spec_empty(filename), events).heatmap) == presses(events),
{
    assert(map_total(Map::<KeystrokeView, u32>::empty()) == 0);
    lemma_keystrokes_count_presses(Store::spec_empty(filename), events);
}

/// When a key press `e` is processed, a pair is recorded exactly when there
/// was a press before it and `e` came less than `BIGRAM_WINDOW_SECS` after
/// it; a triple is recorded exactly when, besides, there was a press before
/// that one, and the middle press came less than `TRIGRAM_WINDOW_SECS` after
/// it. No triple is recorded without its pair.
pub proof fn lemma_ngrams_recorded_iff(s: StoreView, e: Event)
    requires
        s.window.len() == 3,
        e.is_press(),
    ensures
        ({
            let after = processed(s, e);
            let pair = s.window[0] is Some && within_delay(
                e.time,
                s.window[0].unwrap().time,
                BIGRAM_WINDOW_SECS,
            );
            let triple = pair && s.window[1] is Some && within_delay(
                s.window[0].unwrap().time,
                s.window[1].unwrap().time,
                TRIGRAM_WINDOW_SECS,
            );
            &&& after.heatmap == recorded_in(s.heatmap, keystroke_of(e))
            &&& after.bigram == if pair {
                recorded_in(s.bigram, (keystroke_of(s.window[0].unwrap()), keystroke_of(e)))
            } else {
                s.bigram
            }
            &&& after.trigram == if triple {
                recorded_in(
                    s.trigram,
                    (
                        keystroke_of(s.window[1].unwrap()),
                        keystroke_of(s.window[0].unwrap()),
                        keystroke_of(e),
                    ),
                )
            } else {
                s.trigram
            }
            &&& after.window == seq![Some(e), s.window[0], s.window[1]]
        }),
{
}

/// Whether every keystroke of a pair, of a triple and of the window has a
/// count of its own.
pub open spec fn participants_counted(s: StoreView) -> bool {
    &&& forall|pair: (KeystrokeView, KeystrokeView)| #[trigger]
        s.bigram.contains_key(pair) ==> s.heatmap.contains_key(pair.0) && s.heatmap.contains_key(
            pair.1,
        )
    &&& forall|triple: (KeystrokeView, KeystrokeView, KeystrokeView)| #[trigger]
        s.trigram.contains_key(triple) ==> s.heatmap.contains_key(triple.0)
            && s.heatmap.contains_key(triple.1) && s.heatmap.contains_key(triple.2)
    &&& forall|i: int|
        0 <= i < s.window.len() && (#[trigger] s.window[i]) is Some ==> s.heatmap.contains_key(
            keystroke_of(s.window[i].unwrap()),
        )
}

/// No pair and no triple is ever recorded without its keystrokes: a store that
/// has seen nothing counts every participant, and so does every store after
/// it.
pub proof fn lemma_participants_stay_counted(s: StoreView, e: Event)
    requires
        s.window.len() == 3,
        participants_counted(s),
    ensures
        participants_counted(processed(s, e)),
        participants_counted(Store::spec_empty(s.filename)),
{
    let after = processed(s, e);
    if e.is_press() {
        assert forall|i: int| 0 <= i < after.window.len() && (#[trigger] after.window[i]) is Some
            implies after.heatmap.contains_key(keystroke_of(after.window[i].unwrap())) by {
            if i > 0 {
                assert(after.window[i] == s.window[i - 1]);
            }
        }
        assert(after.window[1] == s.window[0]);
        assert(after.window[2] == s.window[1]);
    }
}

/// Whether at `now` a store last saved at `last_save` is due to be saved
/// again: more than `SAVE_INTERVAL_SECS` whole seconds have passed, or the
/// clock has gone back behind `last_save`.
pub open spec fn save_due(last_save: Timestamp, now: Timestamp) -> bool {
    match now.secs_since(last_save) {
        Some(s) => s > SAVE_INTERVAL_SECS,
        None => true,
    }
}

impl View for Store {
    type V = StoreView;

    closed spec fn view(&self) -> StoreView {
        StoreView {
            heatmap: self.heatmap@,
            bigram: self.bigram@,
            trigram: self.trigram@,
            window: self.ngrams@,
            last_save: self.last_save,
            filename: self.filename@,
        }
    }
}

impl Store {
    /// Every table holds each of its keys once.
    pub closed spec fn wf(&self) -> bool {
        &&& self.heatmap.wf()
        &&& self.bigram.wf()
        &&& self.trigram.wf()
    }

    /// The rows of the table of keystrokes, in their order.
    pub closed spec fn unigram_rows(&self) -> Seq<(KeystrokeView, u32)> {
        self.heatmap.rows()
    }

    /// The rows of the table of pairs, in their order.
    pub closed spec fn bigram_rows(&self) -> Seq<((KeystrokeView, KeystrokeView), u32)> {
        self.bigram.rows()
    }

    /// The rows of the table of triples, in their order.
    pub closed spec fn trigram_rows(&self) -> Seq<
        ((KeystrokeView, KeystrokeView, KeystrokeView), u32),
    > {
        self.trigram.rows()
    }

    /// The mappings of the view are those that the rows spell out, no key
    /// stands in two rows of a table, and the window holds three slots.
    pub proof fn lemma_view(&self)
        requires
            self.wf(),
        ensures
            self@.heatmap == rows_map(self.unigram_rows()),
            self@.bigram == rows_map(self.bigram_rows()),
            self@.trigram == rows_map(self.trigram_rows()),
            distinct_keys(self.unigram_rows()),
            distinct_keys(self.bigram_rows()),
            distinct_keys(self.trigram_rows()),
            self@.window.len() == 3,
    {
        self.ngrams.lemma_len();
    }

    /// Create a new store, last saved at `now`.
    pub fn new_at(filename: String, now: Timestamp) -> (store: Store)
        ensures
            store.wf(),
            store@ == (StoreView {
                heatmap: Map::empty(),
                bigram: Map::empty(),
                trigram: Map::empty(),
                window: seq![None, None, None],
                last_save: now,
                filename: filename@,
            }),
            store.unigram_rows().len() == 0,
            store.bigram_rows().len() == 0,
            store.trigram_rows().len() == 0,
    {
        let store = Store {
            heatmap: Heatmap::new(),
            bigram: Heatmap::new(),
            trigram: Heatmap::new(),
            ngrams: Buffer::<Option<Event>>::new(),
            last_save: now,
            filename: filename,
        };
        assert(store@.window =~= seq![None, None, None]);
        store
    }

    /// Create a new store, last saved now.
    pub fn new(filename: String) -> (store: Store)
        ensures
            store.wf(),
            store@ == (StoreView { last_save: store@.last_save, ..Store::spec_empty(filename@) }),
            store.unigram_rows().len() == 0,
            store.bigram_rows().len() == 0,
            store.trigram_rows().len() == 0,
    {
        Store::new_at(filename, current_time())
    }

    /// A store that has seen no event, for the file `filename`. It counts as
    /// last saved at the epoch.
    pub open spec fn spec_empty(filename: Seq<char>) -> StoreView {
        StoreView {
            heatmap: Map::empty(),
            bigram: Map::empty(),
            trigram: Map::empty(),
            window: seq![None, None, None],
            last_save: Timestamp { secs: 0, nanos: 0 },
            filename: filename,
        }
    }

    /// The name of the file that the store is saved to.
    pub fn filename(&self) -> (name: &String)
        ensures
            name@ == self@.filename,
    {
        &self.filename
    }

    /// When the store was last saved.
    pub fn last_save(&self) -> (at: Timestamp)
        ensures
            at == self@.last_save,
    {
        self.last_save
    }

    /// Process a device event at the time `now`: a key press goes into the
    /// tables, any other event is dropped. The answer is whether the store
    /// should be saved: after a key press, when a save is due at `now`.
    pub fn process_event_at(&mut self, e: Event, now: Timestamp) -> (save: bool)
        requires
            old(self).wf(),
        ensures
            final(self).wf(),
            final(self)@ == processed(old(self)@, e),
            save == (e.is_press() && save_due(old(self)@.last_save, now)),
    {
        match e.event_type {
            EventType::KeyPress(_) => {
                self.update(e);
                self.is_save_due(now)
            },
            _ => false,
        }
    }

    /// Process a device event: a key press goes into the tables, any other
    /// event is dropped. The answer is whether the store should be saved:
    /// never after an event that was dropped, and after a key press when a
    /// save is due by the clock.
    pub fn process_event(&mut self, e: Event) -> (save: bool)
        requires
            old(self).wf(),
        ensures
            final(self).wf(),
            final(self)@ == processed(old(self)@, e),
            save ==> e.is_press(),
    {
        self.process_event_at(e, current_time())
    }

    /// Whether the store is due to be saved at `now`.
    pub fn is_save_due(&self, now: Timestamp) -> (due: bool)
        ensures
            due == save_due(self@.last_save, now),
    {
        match now.seconds_since(self.last_save) {
            Some(s) => s > SAVE_INTERVAL_SECS as u128,
            None => true,
        }
    }

    /// Note that the store was saved at `now`.
    pub fn mark_saved_at(&mut self, now: Timestamp)
        ensures
            final(self)@ == (StoreView { last_save: now, ..old(self)@ }),
            final(self).wf() == old(self).wf(),
            final(self).unigram_rows() == old(self).unigram_rows(),
            final(self).bigram_rows() == old(self).bigram_rows(),
            final(self).trigram_rows() == old(self).trigram_rows(),
    {
        self.last_save = now;
    }

    /// Note that the store was saved just now.
    pub fn mark_saved(&mut self)
        ensures
            final(self)@ == (StoreView { last_save: final(self)@.last_save, ..old(self)@ }),
            final(self).wf() == old(self).wf(),
            final(self).unigram_rows() == old(self).unigram_rows(),
            final(self).bigram_rows() == old(self).bigram_rows(),
            final(self).trigram_rows() == old(self).trigram_rows(),
    {
        self.mark_saved_at(current_time());
    }

    /// What is saved of the store.
    pub open spec fn image(&self) -> StoreImage {
        StoreImage {
            filename: self@.filename,
            unigrams: rows_out::<Keystroke>(self.unigram_rows()),
            bigrams: rows_out::<(Keystroke, Keystroke)>(self.bigram_rows()),
            trigrams: rows_out::<(Keystroke, Keystroke, Keystroke)>(self.trigram_rows()),
        }
    }

    /// The store that saved rows spell out, with an empty window and last
    /// saved at `now`; or what is wrong with the rows.
    pub fn from_image(
        filename: String,
        unigrams: &Vec<UnigramRow>,
        bigrams: &Vec<BigramRow>,
        trigrams: &Vec<TrigramRow>,
        now: Timestamp,
    ) -> (r: Result<Store, DecodeError>)
        ensures
            ({
                let image = StoreImage {
                    filename: filename@,
                    unigrams: unigrams.deep_view(),
                    bigrams: bigrams.deep_view(),
                    trigrams: trigrams.deep_view(),
                };
                match r {
                    Ok(store) => {
                        &&& image_error(image) is None
                        &&& store.wf()
                        &&& store.unigram_rows() == rows_back::<Keystroke>(image.unigrams)
                        &&& store.bigram_rows() == rows_back::<(Keystroke, Keystroke)>(
                            image.bigrams,
                        )
                        &&& store.trigram_rows() == rows_back::<(Keystroke, Keystroke, Keystroke)>(
                            image.trigrams,
                        )
                        &&& store@.window == seq![None::<Event>, None, None]
                        &&& store@.last_save == now
                        &&& store@.filename == filename@
                    },
                    Err(e) => image_error(image) == Some(e),
                }
            }),
    {
        if !(check_known::<Keystroke>(unigrams) && check_known::<(Keystroke, Keystroke)>(bigrams)
            && check_known::<(Keystroke, Keystroke, Keystroke)>(trigrams)) {
            return Err(DecodeError::UnknownKey);
        }
        let heatmap = match table_in::<Keystroke>(unigrams) {
            Some(table) => table,
            None => {
                return Err(DecodeError::DuplicateKey);
            },
        };
        let bigram = match table_in::<(Keystroke, Keystroke)>(bigrams) {
            Some(table) => table,
            None => {
                return Err(DecodeError::DuplicateKey);
            },
        };
        let trigram = match table_in::<(Keystroke, Keystroke, Keystroke)>(trigrams) {
            Some(table) => table,
            None => {
                return Err(DecodeError::DuplicateKey);
            },
        };
        let store = Store {
            heatmap,
            bigram,
            trigram,
            ngrams: Buffer::<Option<Event>>::new(),
            last_save: now,
            filename,
        };
        assert(store@.window =~= seq![None::<Event>, None, None]);
        Ok(store)
    }

    /// The bytes to save the store as: the encoding of its image.
    pub fn save(&self) -> (r: Result<Vec<u8>, PersistError>)
        ensures
            ({
                let image = self.image();
                let encoding = bare_encoding(
                    image.filename,
                    image.unigrams,
                    image.bigrams,
                    image.trigrams,
                );
                match r {
                    Ok(bytes) => encoding == Some(bytes@),
                    Err(e) => e == PersistError::Encoding && encoding is None,
                }
            }),
    {
        let unigrams = table_out::<Keystroke>(&self.heatmap);
        let bigrams = table_out::<(Keystroke, Keystroke)>(&self.bigram);
        let trigrams = table_out::<(Keystroke, Keystroke, Keystroke)>(&self.trigram);
        match bare_encode(&self.filename, &unigrams, &bigrams, &trigrams) {
            Ok(bytes) => Ok(bytes),
            Err(_) => Err(PersistError::Encoding),
        }
    }

    /// What is saved of a store spells out the rows of that store: saved and
    /// read back, the tables are what they were.
    pub proof fn lemma_image_restores(&self)
        requires
            self.wf(),
        ensures
            image_error(self.image()) is None,
            rows_back::<Keystroke>(self.image().unigrams) == self.unigram_rows(),
            rows_back::<(Keystroke, Keystroke)>(self.image().bigrams) == self.bigram_rows(),
            rows_back::<(Keystroke, Keystroke, Keystroke)>(self.image().trigrams)
                == self.trigram_rows(),
    {
        lemma_rows_round_trip::<Keystroke>(self.unigram_rows());
        lemma_rows_round_trip::<(Keystroke, Keystroke)>(self.bigram_rows());
        lemma_rows_round_trip::<(Keystroke, Keystroke, Keystroke)>(self.trigram_rows());
    }

    /// What is saved does not depend on when the store was last saved: a
    /// store that is saved, marked as saved and saved again gives the same
    /// bytes twice.
    pub proof fn lemma_image_ignores_last_save(&self, after: &Store)
        requires
            after@ == (StoreView { last_save: after@.last_save, ..self@ }),
            after.unigram_rows() == self.unigram_rows(),
            after.bigram_rows() == self.bigram_rows(),
            after.trigram_rows() == self.trigram_rows(),
        ensures
            after.image() == self.image(),
            bare_encoding(
                after.image().filename,
                after.image().unigrams,
                after.image().bigrams,
                after.image().trigrams,
            ) == bare_encoding(
                self.image().filename,
                self.image().unigrams,
                self.image().bigrams,
                self.image().trigrams,
            ),
    {
    }

    /// Record the event `e`: it goes into the window and is counted in the
    /// tables.
    pub fn update(&mut self, e: Event)
        requires
            old(self).wf(),
        ensures
            final(self).wf(),
            final(self)@ == recorded(old(self)@, e),
    {
        let ghost before = self@;
        self.ngrams.push(Some(e));
        let events = self.ngrams.to_vec();
        let ghost w = self.ngrams@;
        assert(w == pushed(before.window, Some(e)));
        assert(events@ =~= w);
        match &events[0] {
            Some(e0) => {
                self.update_heatmap(e0);
                match &events[1] {
                    Some(e1) => {
                        if is_within_delay(e0, e1, BIGRAM_WINDOW_SECS) {
                            self.update_bigram(e1, e0);
                            match &events[2] {
                                Some(e2) => {
                                    if is_within_delay(e1, e2, TRIGRAM_WINDOW_SECS) {
                                        self.update_trigram(e2, e1, e0);
                                    }
                                },
                                None => {},
                            }
                        }
                    },
                    None => {},
                }
            },
            None => {},
        }
    }

    fn update_heatmap(&mut self, e: &Event)
        requires
            old(self).wf(),
        ensures
            final(self).wf(),
            final(self)@ == (StoreView {
                heatmap: recorded_in(old(self)@.heatmap, keystroke_of(*e)),
                ..old(self)@
            }),
    {
        let ks = event_to_keystroke(e);
        self.heatmap.record(ks);
    }

    fn update_bigram(&mut self, e1: &Event, e2: &Event)
        requires
            old(self).wf(),
        ensures
            final(self).wf(),
            final(self)@ == (StoreView {
                bigram: recorded_in(old(self)@.bigram, (keystroke_of(*e1), keystroke_of(*e2))),
                ..old(self)@
            }),
    {
        let ks1 = event_to_keystroke(e1);
        let ks2 = event_to_keystroke(e2);
        self.bigram.record((ks1, ks2));
    }

    fn update_trigram(&mut self, e1: &Event, e2: &Event, e3: &Event)
        requires
            old(self).wf(),
        ensures
            final(self).wf(),
            final(self)@ == (StoreView {
                trigram: recorded_in(
                    old(self)@.trigram,
                    (keystroke_of(*e1), keystroke_of(*e2), keystroke_of(*e3)),
                ),
                ..old(self)@
            }),
    {
        let ks1 = event_to_keystroke(e1);
        let ks2 = event_to_keystroke(e2);
        let ks3 = event_to_keystroke(e3);
        self.trigram.record((ks1, ks2, ks3));
    }
}

/// Load a store from the bytes that a store was saved as. Its window is
/// empty, and it counts as saved just now.
pub fn load(bytes: &[u8]) -> (r: Result<Store, DecodeError>)
    ensures
        match bare_decoding(bytes@) {
            None => r matches Err(e) && e == DecodeError::Malformed,
            Some(decoded) => {
                let image = StoreImage {
                    filename: decoded.0,
                    unigrams: decoded.1,
                    bigrams: decoded.2,
                    trigrams: decoded.3,
                };
                match r {
                    Ok(store) => {
                        &&& image_error(image) is None
                        &&& store.wf()
                        &&& store.unigram_rows() == rows_back::<Keystroke>(image.unigrams)
                        &&& store.bigram_rows() == rows_back::<(Keystroke, Keystroke)>(
                            image.bigrams,
                        )
                        &&& store.trigram_rows() == rows_back::<(Keystroke, Keystroke, Keystroke)>(
                            image.trigrams,
                        )
                        &&& store@.window == seq![None::<Event>, None, None]
                        &&& store@.filename == image.filename
                    },
                    Err(e) => image_error(image) == Some(e),
                }
            },
        },
{
    match bare_decode(bytes) {
        Ok(decoded) => Store::from_image(
            decoded.0,
            &decoded.1,
            &decoded.2,
            &decoded.3,
            current_time(),
        ),
        Err(_) => Err(DecodeError::Malformed),
    }
}

/// The system clock, read through `std::time::SystemTime::now`, as time
/// since the Unix epoch. A clock that stands before the epoch reads as the
/// epoch. Nothing is claimed of the value.
#[verifier::external_body]
fn current_time() -> Timestamp {
    match std::time::SystemTime::now().duration_since(std::time::UNIX_EPOCH) {
        Ok(d) => Timestamp { secs: d.as_secs(), nanos: d.subsec_nanos() },
        Err(_) => Timestamp { secs: 0, nanos: 0 },
    }
}

} // verus!
