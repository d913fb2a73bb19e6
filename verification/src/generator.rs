//! A pseudo random keystroke generator: a Markov chain over the keystrokes
//! of a table, boosted by the pairs and triples that were seen.

use vstd::prelude::*;
use std::collections::HashMap;
use crate::corpus::{BigramHeatmap, Keystroke, KeystrokeHeatmap, KeystrokeView, TrigramHeatmap};
use crate::heatmap::{find_row, lemma_find_row};
use crate::weights::{
    all_fit, as_ints, boost, boosted, draw_index, lemma_boosted_grows, sum, total, Link,
};

verus! {

broadcast use vstd::std_specs::hash::group_hash_axioms;

/// The key that the links after one keystroke are held under: its index.
pub open spec fn single_key(first: int) -> u128 {
    first as u128
}

/// The key that the links after two keystrokes are held under: the index of
/// the older one, 64 bits up, plus that of the newer one.
pub open spec fn pair_key(older: int, newer: int) -> u128 {
    (older * 0x1_0000_0000_0000_0000 + newer) as u128
}

/// The links that the pairs `bigrams` make under `key`, in the order of
/// their rows: a pair `(a, b)` with count `w` links, under the key of `a`'s
/// index, to the index of `b` with weight `w`. A pair with a keystroke that
/// `unigrams` does not hold makes no link.
pub open spec fn bigram_links(
    unigrams: Seq<(KeystrokeView, u32)>,
    bigrams: Seq<((KeystrokeView, KeystrokeView), u32)>,
    key: u128,
) -> Seq<Link>
    decreases bigrams.len(),
{
    if bigrams.len() == 0 {
        Seq::empty()
    } else {
        let before = bigram_links(unigrams, bigrams.drop_last(), key);
        let row = bigrams.last();
        match (find_row(unigrams, row.0.0), find_row(unigrams, row.0.1)) {
            (Some(a), Some(b)) => if single_key(a) == key {
                before.push((b as usize, row.1))
            } else {
                before
            },
            _ => before,
        }
    }
}

/// The links that the triples `trigrams` make under `key`, in the order of
/// their rows: a triple `(a, b, c)` with count `w` links, under the key of
/// the indices of `a` and `b`, to the index of `c` with weight `w`. A triple
/// with a keystroke that `unigrams` does not hold makes no link.
pub open spec fn trigram_links(
    unigrams: Seq<(KeystrokeView, u32)>,
    trigrams: Seq<((KeystrokeView, KeystrokeView, KeystrokeView), u32)>,
    key: u128,
) -> Seq<Link>
    decreases trigrams.len(),
{
    if trigrams.len() == 0 {
        Seq::empty()
    } else {
        let before = trigram_links(unigrams, trigrams.drop_last(), key);
        let row = trigrams.last();
        match (
            find_row(unigrams, row.0.0),
            find_row(unigrams, row.0.1),
            find_row(unigrams, row.0.2),
        ) {
            (Some(a), Some(b), Some(c)) => if pair_key(a, b) == key {
                before.push((c as usize, row.1))
            } else {
                before
            },
            _ => before,
        }
    }
}

/// The links held under `key`, none where the lookup has no such key.
pub open spec fn links_under(lookup: Map<u128, Vec<Link>>, key: u128) -> Seq<Link> {
    if lookup.contains_key(key) {
        lookup[key]@
    } else {
        Seq::empty()
    }
}

/// Every link leads to an index below `n`.
pub open spec fn targets_below(links: Seq<Link>, n: int) -> bool {
    forall|j: int| 0 <= j < links.len() ==> (#[trigger] links[j]).0 < n
}

/// The weights to draw the next keystroke by: the base weights `base`,
/// boosted by the links after the newest keystroke, if there is one, and then
/// by the links after the last two, if there are two.
pub open spec fn weights_after(
    base: Seq<u32>,
    after_one: Seq<Link>,
    after_two: Seq<Link>,
) -> Seq<int> {
    boosted(boosted(as_ints(base), after_one), after_two)
}

/// Two pairs of indices have one key only where they are one pair.
pub proof fn lemma_pair_key_is_injective(a: usize, b: usize, c: usize, d: usize)
    requires
        pair_key(a as int, b as int) == pair_key(c as int, d as int),
    ensures
        a == c,
        b == d,
{
}

fn add_link(lookup: &mut HashMap<u128, Vec<Link>>, key: u128, link: Link)
    ensures
        forall|k: u128|
            #[trigger] links_under(final(lookup)@, k) == if k == key {
                links_under(old(lookup)@, key).push(link)
            } else {
                links_under(old(lookup)@, k)
            },
{
    let mut list = match lookup.remove(&key) {
        Some(list) => list,
        None => Vec::new(),
    };
    list.push(link);
    lookup.insert(key, list);
}

fn pair_key_of(older: usize, newer: usize) -> (key: u128)
    ensures
        key == pair_key(older as int, newer as int),
{
    let scale: u128 = 0x1_0000_0000_0000_0000;
    older as u128 * scale + newer as u128
}

/// A generator is a pseudo random Keystroke generator based on typing heatmaps.
pub struct Generator {
    /// The list of all keystrokes
    keystrokes: Vec<Keystroke>,
    /// The weights of each keystroke
    weights: Vec<u32>,
    /// Lookup table for bigrams to a vector of (index, weight) possible next keystroke
    bigram_lookup: HashMap<u128, Vec<Link>>,
    /// Lookup table for trigrams to a vector of (index, weight) possible next keystroke
    trigram_lookup: HashMap<u128, Vec<Link>>,
    /// The last two keystrokes index
    preceeding: [Option<usize>; 2],
}

impl Generator {
    /// The keystrokes in the order of their indices, each with its base
    /// weight.
    pub closed spec fn rows(&self) -> Seq<(KeystrokeView, u32)> {
        Seq::new(self.keystrokes@.len(), |i: int| (self.keystrokes@[i]@, self.weights@[i]))
    }

    /// The base weights, by index.
    pub closed spec fn base(&self) -> Seq<u32> {
        self.weights@
    }

    /// The links held under `key` for the keystroke before.
    pub closed spec fn one_links(&self, key: u128) -> Seq<Link> {
        links_under(self.bigram_lookup@, key)
    }

    /// The links held under `key` for the two keystrokes before.
    pub closed spec fn two_links(&self, key: u128) -> Seq<Link> {
        links_under(self.trigram_lookup@, key)
    }

    /// The indices of the last two keystrokes that were generated, the newest
    /// first.
    pub closed spec fn history(&self) -> (Option<usize>, Option<usize>) {
        (self.preceeding@[0], self.preceeding@[1])
    }

    /// The links that boost the next draw for the keystroke before: none
    /// before the first keystroke.
    pub open spec fn after_one(&self) -> Seq<Link> {
        match self.history().0 {
            Some(first) => self.one_links(single_key(first as int)),
            None => Seq::empty(),
        }
    }

    /// The links that boost the next draw for the two keystrokes before:
    /// none before the second keystroke.
    pub open spec fn after_two(&self) -> Seq<Link> {
        match self.history() {
            (Some(newer), Some(older)) => self.two_links(pair_key(older as int, newer as int)),
            _ => Seq::empty(),
        }
    }

    /// The weights that the next keystroke is drawn by.
    pub open spec fn next_weights(&self) -> Seq<int> {
        weights_after(self.base(), self.after_one(), self.after_two())
    }

    /// Whether a keystroke can be drawn: every weight and their sum are
    /// `u32`s, and the sum is above 0.
    pub open spec fn can_draw(&self) -> bool {
        &&& all_fit(self.next_weights())
        &&& 0 < total(self.next_weights()) <= u32::MAX
    }

    /// The generator after the keystroke of index `index` came out: that
    /// index is the newest of the history, the newest before it is the older
    /// one.
    pub open spec fn advanced(&self, after: &Generator, index: usize) -> bool {
        &&& after.rows() == self.rows()
        &&& after.base() == self.base()
        &&& forall|k: u128| #[trigger] after.one_links(k) == self.one_links(k)
        &&& forall|k: u128| #[trigger] after.two_links(k) == self.two_links(k)
        &&& after.history() == (Some(index), self.history().0)
    }

    /// Whether `after` is the generator after `keystroke` was drawn: the
    /// keystroke has an index whose weight for the draw was above 0, and that
    /// index has gone into the history.
    pub open spec fn drew(&self, after: &Generator, keystroke: KeystrokeView) -> bool {
        &&& after.history().0 matches Some(index)
        &&& index < self.rows().len()
        &&& self.next_weights()[index as int] > 0
        &&& self.advanced(after, index)
        &&& keystroke == self.rows()[index as int].0
    }

    /// As many weights as keystrokes, every link to an index that has a
    /// keystroke, and a history of such indices with no gap.
    pub closed spec fn wf(&self) -> bool {
        &&& self.keystrokes@.len() == self.weights@.len()
        &&& forall|k: u128|
            targets_below(
                #[trigger] links_under(self.bigram_lookup@, k),
                self.keystrokes@.len() as int,
            )
        &&& forall|k: u128|
            targets_below(
                #[trigger] links_under(self.trigram_lookup@, k),
                self.keystrokes@.len() as int,
            )
        &&& self.preceeding@[0] matches Some(i) ==> i < self.keystrokes@.len()
        &&& self.preceeding@[1] matches Some(i) ==> i < self.keystrokes@.len()
        &&& self.preceeding@[1] is Some ==> self.preceeding@[0] is Some
    }

    /// The rows and the base weights go together, and the history holds
    /// indices of rows.
    pub proof fn lemma_wf(&self)
        requires
            self.wf(),
        ensures
            self.rows().len() == self.base().len(),
            forall|i: int| 0 <= i < self.rows().len() ==> (#[trigger] self.rows()[i]).1 == self.base()[i],
            self.next_weights().len() == self.base().len(),
            self.history().0 matches Some(i) ==> i < self.rows().len(),
            self.history().1 matches Some(i) ==> i < self.rows().len(),
            self.history().1 is Some ==> self.history().0 is Some,
    {
        lemma_boosted_grows(as_ints(self.base()), self.after_one(), 0);
        lemma_boosted_grows(boosted(as_ints(self.base()), self.after_one()), self.after_two(), 0);
    }

    /// Create a new generator from heatmaps. The keystrokes get the indices
    /// of their rows, and their counts are the base weights; each pair and
    /// each triple of keystrokes that all have a row becomes a link.
    pub fn new(
        keystrokes: &KeystrokeHeatmap,
        bigrams: &BigramHeatmap,
        trigrams: &TrigramHeatmap,
    ) -> (generator: Generator)
        requires
            keystrokes.wf(),
        ensures
            generator.wf(),
            generator.rows() == keystrokes.rows(),
            forall|k: u128| #[trigger]
                generator.one_links(k) == bigram_links(keystrokes.rows(), bigrams.rows(), k),
            forall|k: u128| #[trigger]
                generator.two_links(k) == trigram_links(keystrokes.rows(), trigrams.rows(), k),
            generator.history() == (None::<usize>, None::<usize>),
    {
        let ghost unigrams = keystrokes.rows();
        let n = keystrokes.len();
        let mut keys: Vec<Keystroke> = Vec::new();
        let mut weights: Vec<u32> = Vec::new();
        let mut i: usize = 0;
        while i < n
            invariant
                i <= n,
                n == keystrokes.rows().len(),
                keys@.len() == i,
                weights@.len() == i,
                forall|j: int| 0 <= j < i ==> (#[trigger] keys@[j])@ == keystrokes.rows()[j].0,
                forall|j: int| 0 <= j < i ==> #[trigger] weights@[j] == keystrokes.rows()[j].1,
            decreases n - i,
        {
            let key = keystrokes.key_at(i).clone();
            keys.push(key);
            weights.push(keystrokes.count_at(i));
            i = i + 1;
        }
        let mut bigram_lookup: HashMap<u128, Vec<Link>> = HashMap::new();
        let pairs = bigrams.len();
        let mut r: usize = 0;
        proof {
            assert(bigrams.rows().take(0) == Seq::<((KeystrokeView, KeystrokeView), u32)>::empty());
        }
        while r < pairs
            invariant
                r <= pairs,
                pairs == bigrams.rows().len(),
                unigrams == keystrokes.rows(),
                n == unigrams.len(),
                keystrokes.wf(),
                forall|k: u128| #[trigger]
                    links_under(bigram_lookup@, k) == bigram_links(
                        unigrams,
                        bigrams.rows().take(r as int),
                        k,
                    ),
                forall|k: u128| targets_below(#[trigger] links_under(bigram_lookup@, k), n as int),
            decreases pairs - r,
        {
            let pair = bigrams.key_at(r);
            let weight = bigrams.count_at(r);
            proof {
                assert(bigrams.rows().take(r + 1).drop_last() == bigrams.rows().take(r as int));
                assert(bigrams.rows().take(r + 1).last() == bigrams.rows()[r as int]);
                lemma_find_row(unigrams, pair.0@);
                lemma_find_row(unigrams, pair.1@);
            }
            match (keystrokes.position(&pair.0), keystrokes.position(&pair.1)) {
                (Some(a), Some(b)) => {
                    add_link(&mut bigram_lookup, a as u128, (b, weight));
                },
                _ => {},
            }
            r = r + 1;
        }
        let mut trigram_lookup: HashMap<u128, Vec<Link>> = HashMap::new();
        let triples = trigrams.len();
        let mut t: usize = 0;
        proof {
            assert(bigrams.rows().take(pairs as int) == bigrams.rows());
            assert(trigrams.rows().take(0) == Seq::<
                ((KeystrokeView, KeystrokeView, KeystrokeView), u32),
            >::empty());
        }
        while t < triples
            invariant
                t <= triples,
                triples == trigrams.rows().len(),
                unigrams == keystrokes.rows(),
                n == unigrams.len(),
                keystrokes.wf(),
                forall|k: u128| #[trigger]
                    links_under(trigram_lookup@, k) == trigram_links(
                        unigrams,
                        trigrams.rows().take(t as int),
                        k,
                    ),
                forall|k: u128| targets_below(#[trigger] links_under(trigram_lookup@, k), n as int),
            decreases triples - t,
        {
            let triple = trigrams.key_at(t);
            let weight = trigrams.count_at(t);
            proof {
                assert(trigrams.rows().take(t + 1).drop_last() == trigrams.rows().take(t as int));
                assert(trigrams.rows().take(t + 1).last() == trigrams.rows()[t as int]);
                lemma_find_row(unigrams, triple.0@);
                lemma_find_row(unigrams, triple.1@);
                lemma_find_row(unigrams, triple.2@);
            }
            match (
                keystrokes.position(&triple.0),
                keystrokes.position(&triple.1),
                keystrokes.position(&triple.2),
            ) {
                (Some(a), Some(b), Some(c)) => {
                    add_link(&mut trigram_lookup, pair_key_of(a, b), (c, weight));
                },
                _ => {},
            }
            t = t + 1;
        }
        proof {
            assert(trigrams.rows().take(triples as int) == trigrams.rows());
        }
        let generator = Generator {
            keystrokes: keys,
            weights,
            bigram_lookup,
            trigram_lookup,
            preceeding: [None, None],
        };
        assert(generator.rows() =~= keystrokes.rows());
        generator
    }

    /// The number of keystrokes.
    pub fn len(&self) -> (n: usize)
        ensures
            n == self.rows().len(),
    {
        self.keystrokes.len()
    }

    /// The keystroke of index `index`.
    pub fn keystroke_at(&self, index: usize) -> (keystroke: &Keystroke)
        requires
            index < self.rows().len(),
        ensures
            keystroke@ == self.rows()[index as int].0,
    {
        &self.keystrokes[index]
    }

    /// The weights that the next keystroke is drawn by, `None` where one of
    /// them is no `u32`.
    pub fn boosted_weights(&self) -> (weights: Option<Vec<u32>>)
        requires
            self.wf(),
        ensures
            match weights {
                Some(w) => all_fit(self.next_weights()) && as_ints(w@) == self.next_weights(),
                None => !all_fit(self.next_weights()),
            },
    {
        let mut weights = self.weights.clone();
        assert(weights@ == self.weights@);
        let ghost base = as_ints(self.weights@);
        let ghost one = self.after_one();
        let ghost two = self.after_two();
        // Update weights with bigram if we have a preceeding keystroke
        if let Some(newer) = self.preceeding[0] {
            assert(targets_below(links_under(self.bigram_lookup@, newer as u128), base.len() as int));
            if let Some(links) = self.bigram_lookup.get(&(newer as u128)) {
                if !boost(&mut weights, links) {
                    proof {
                        lemma_boosted_grows(boosted(base, one), two, 0);
                        lemma_boosted_grows(base, one, 0);
                        let i = choose|i: int|
                            0 <= i < base.len() && !(0 <= #[trigger] boosted(base, one)[i]
                                <= u32::MAX);
                        assert(boosted(boosted(base, one), two.take(0)) == boosted(base, one));
                        assert(self.next_weights()[i] >= boosted(base, one)[i]);
                    }
                    return None;
                }
            }
            // Update weights with trigram if we have two preceeding keystrokes
            if let Some(older) = self.preceeding[1] {
                let key = pair_key_of(older, newer);
                assert(targets_below(links_under(self.trigram_lookup@, key), base.len() as int));
                if let Some(links) = self.trigram_lookup.get(&key) {
                    if !boost(&mut weights, links) {
                        return None;
                    }
                }
            }
        }
        proof {
            assert forall|i: int| 0 <= i < weights@.len() implies 0 <= #[trigger] as_ints(
                weights@,
            )[i] <= u32::MAX by {}
        }
        Some(weights)
    }

    /// Note that the keystroke of index `index` came out, and return it.
    pub fn advance(&mut self, index: usize) -> (keystroke: Keystroke)
        requires
            old(self).wf(),
            index < old(self).rows().len(),
        ensures
            final(self).wf(),
            old(self).advanced(final(self), index),
            keystroke@ == old(self).rows()[index as int].0,
    {
        self.preceeding[1] = self.preceeding[0];
        self.preceeding[0] = Some(index);
        self.keystrokes[index].clone()
    }

    /// Generate a random keystroke: one whose weight for this draw is above
    /// 0, drawn by those weights.
    pub fn generate_random_keystroke(&mut self) -> (keystroke: Keystroke)
        requires
            old(self).wf(),
            old(self).can_draw(),
        ensures
            final(self).wf(),
            old(self).drew(final(self), keystroke@),
    {
        let weights = self.boosted_weights().unwrap();
        let index = draw_index(&weights).unwrap();
        proof {
            self.lemma_wf();
            assert(as_ints(weights@)[index as int] == weights@[index as int]);
        }
        self.advance(index)
    }

    /// The next keystroke of the sequence: a random keystroke where one can
    /// be drawn. `None`, with nothing changed, where none can: there is no
    /// keystroke, or a weight or the sum of the weights is no `u32`.
    pub fn next(&mut self) -> (keystroke: Option<Keystroke>)
        requires
            old(self).wf(),
        ensures
            final(self).wf(),
            match keystroke {
                Some(k) => old(self).can_draw() && old(self).drew(final(self), k@),
                None => !old(self).can_draw() && *final(self) == *old(self),
            },
    {
        if self.is_ready() {
            Some(self.generate_random_keystroke())
        } else {
            None
        }
    }

    /// Whether a keystroke can be drawn.
    pub fn is_ready(&self) -> (ready: bool)
        requires
            self.wf(),
        ensures
            ready == self.can_draw(),
    {
        match self.boosted_weights() {
            Some(w) => match sum(&w) {
                Some(s) => s > 0,
                None => false,
            },
            None => false,
        }
    }
}

/// Without links the weights of every draw are the base weights: a
/// generator made of keystrokes alone draws by their counts, whatever came
/// before.
pub proof fn lemma_unboosted_without_links(generator: &Generator)
    requires
        forall|k: u128| #[trigger] generator.one_links(k) == Seq::<Link>::empty(),
        forall|k: u128| #[trigger] generator.two_links(k) == Seq::<Link>::empty(),
    ensures
        generator.next_weights() == as_ints(generator.base()),
{
    match generator.history().0 {
        Some(first) => {
            assert(generator.one_links(single_key(first as int)) == Seq::<Link>::empty());
        },
        None => {},
    }
    match generator.history() {
        (Some(newer), Some(older)) => {
            assert(generator.two_links(pair_key(older as int, newer as int)) == Seq::<
                Link,
            >::empty());
        },
        _ => {},
    }
}

/// A generator made of keystrokes alone, with no pairs and no triples, draws
/// by the counts of the keystrokes, whatever came before.
pub proof fn lemma_keystrokes_alone_draw_by_counts(
    generator: &Generator,
    unigrams: Seq<(KeystrokeView, u32)>,
)
    requires
        forall|k: u128| #[trigger]
            generator.one_links(k) == bigram_links(unigrams, Seq::empty(), k),
        forall|k: u128| #[trigger]
            generator.two_links(k) == trigram_links(unigrams, Seq::empty(), k),
    ensures
        generator.next_weights() == as_ints(generator.base()),
{
    lemma_unboosted_without_links(generator);
}

} // verus!
