//! Weight vectors: boosting them by links, summing them, and drawing an
//! index by weight.

use vstd::prelude::*;
use rand::distributions::Distribution;

verus! {

/// A link to a next keystroke: its index, and the weight it adds.
pub type Link = (usize, u32);

/// The weights as mathematical integers.
pub open spec fn as_ints(weights: Seq<u32>) -> Seq<int> {
    weights.map_values(|w: u32| w as int)
}

/// The weights `weights` after each link, first to last, added its weight to
/// the weight at its index. A link to an index outside the weights adds
/// nothing.
pub open spec fn boosted(weights: Seq<int>, links: Seq<Link>) -> Seq<int>
    decreases links.len(),
{
    if links.len() == 0 {
        weights
    } else {
        let before = boosted(weights, links.drop_last());
        let link = links.last();
        if link.0 < before.len() {
            before.update(link.0 as int, before[link.0 as int] + link.1)
        } else {
            before
        }
    }
}

/// The sum of the weights.
pub open spec fn total(weights: Seq<int>) -> int
    decreases weights.len(),
{
    if weights.len() == 0 {
        0
    } else {
        total(weights.drop_last()) + weights.last()
    }
}

/// Whether every weight is a `u32`.
pub open spec fn all_fit(weights: Seq<int>) -> bool {
    forall|i: int| 0 <= i < weights.len() ==> 0 <= #[trigger] weights[i] <= u32::MAX
}

/// Boosting keeps the number of weights and lowers none of them.
pub proof fn lemma_boosted_grows(weights: Seq<int>, links: Seq<Link>, upto: int)
    requires
        0 <= upto <= links.len(),
    ensures
        boosted(weights, links).len() == weights.len(),
        boosted(weights, links.take(upto)).len() == weights.len(),
        forall|i: int|
            0 <= i < weights.len() ==> #[trigger] boosted(weights, links)[i] >= boosted(
                weights,
                links.take(upto),
            )[i],
    decreases links.len(),
{
    if links.len() == 0 {
        assert(links.take(upto) == links);
    } else if upto == links.len() {
        assert(links.take(upto) == links);
        lemma_boosted_grows(weights, links.drop_last(), 0);
    } else {
        lemma_boosted_grows(weights, links.drop_last(), upto);
        assert(links.drop_last().take(upto) == links.take(upto));
    }
}

/// The sum of weights that are not negative is not negative and not less
/// than the sum of any first part of them, nor than any one of them.
pub proof fn lemma_total_grows(weights: Seq<int>, upto: int)
    requires
        0 <= upto <= weights.len(),
        forall|i: int| 0 <= i < weights.len() ==> 0 <= #[trigger] weights[i],
    ensures
        0 <= total(weights.take(upto)) <= total(weights),
        upto < weights.len() ==> total(weights.take(upto)) + weights[upto] <= total(weights),
    decreases weights.len(),
{
    if weights.len() == 0 {
        assert(weights.take(upto) == weights);
    } else if upto == weights.len() {
        assert(weights.take(upto) == weights);
        lemma_total_grows(weights.drop_last(), 0);
    } else {
        lemma_total_grows(weights.drop_last(), upto);
        assert(weights.drop_last().take(upto) == weights.take(upto));
        if upto == weights.len() - 1 {
            assert(weights.take(upto) == weights.drop_last());
        } else {
            assert(weights.drop_last()[upto] == weights[upto]);
        }
    }
}

/// Add the links' weights onto `weights`, first to last. `false`, with the
/// weights in no defined state, where one of the sums is no `u32`.
pub fn boost(weights: &mut Vec<u32>, links: &Vec<Link>) -> (done: bool)
    requires
        forall|j: int| 0 <= j < links.len() ==> (#[trigger] links[j]).0 < old(weights).len(),
    ensures
        final(weights).len() == old(weights).len(),
        done == all_fit(boosted(as_ints(old(weights)@), links@)),
        done ==> as_ints(final(weights)@) == boosted(as_ints(old(weights)@), links@),
{
    let ghost start = as_ints(weights@);
    let mut j: usize = 0;
    proof {
        assert(links@.take(0) == Seq::<Link>::empty());
    }
    while j < links.len()
        invariant
            j <= links.len(),
            weights.len() == start.len(),
            start == as_ints(old(weights)@),
            forall|k: int| 0 <= k < links.len() ==> (#[trigger] links[k]).0 < start.len(),
            as_ints(weights@) == boosted(start, links@.take(j as int)),
        decreases links.len() - j,
    {
        let at = links[j].0;
        let add = links[j].1;
        let ghost before = as_ints(weights@);
        proof {
            assert(links@.take(j + 1).drop_last() == links@.take(j as int));
            assert(links@.take(j + 1).last() == links@[j as int]);
            assert(before[at as int] == weights@[at as int]);
        }
        if add > u32::MAX - weights[at] {
            proof {
                let here = boosted(start, links@.take(j + 1));
                assert(here[at as int] > u32::MAX);
                lemma_boosted_grows(start, links@, j + 1);
                assert(boosted(start, links@)[at as int] > u32::MAX);
            }
            return false;
        }
        let sum = weights[at] + add;
        weights[at] = sum;
        j = j + 1;
        assert(as_ints(weights@) =~= boosted(start, links@.take(j as int)));
    }
    proof {
        assert(links@.take(links.len() as int) == links@);
        assert forall|i: int| 0 <= i < weights.len() implies 0 <= #[trigger] as_ints(weights@)[i]
            <= u32::MAX by {}
    }
    true
}

/// The sum of the weights, `None` where it is no `u32`.
pub fn sum(weights: &Vec<u32>) -> (sum: Option<u32>)
    ensures
        match sum {
            Some(s) => s == total(as_ints(weights@)),
            None => total(as_ints(weights@)) > u32::MAX,
        },
{
    let ghost ints = as_ints(weights@);
    let mut acc: u32 = 0;
    let mut i: usize = 0;
    proof {
        assert(ints.take(0) == Seq::<int>::empty());
    }
    while i < weights.len()
        invariant
            i <= weights.len(),
            ints == as_ints(weights@),
            acc == total(ints.take(i as int)),
        decreases weights.len() - i,
    {
        proof {
            assert(ints.take(i + 1).drop_last() == ints.take(i as int));
            assert(ints.take(i + 1).last() == weights@[i as int]);
            lemma_total_grows(ints, i as int);
        }
        if weights[i] > u32::MAX - acc {
            return None;
        }
        acc = acc + weights[i];
        i = i + 1;
    }
    proof {
        assert(ints.take(weights.len() as int) == ints);
    }
    Some(acc)
}

/// Draws an index by `rand::distributions::WeightedIndex` with the
/// thread's generator: `WeightedIndex::new` on the weights, then `sample`.
/// The claim, for weights whose sum is a `u32`: there is no index exactly
/// when the sum is 0 (no weights, or all of them 0), and an index that is
/// drawn is in range and has a weight above 0. Which of those indices comes
/// is left open.
#[verifier::external_body]
pub(crate) fn draw_index(weights: &Vec<u32>) -> (index: Option<usize>)
    requires
        total(as_ints(weights@)) <= u32::MAX,
    ensures
        match index {
            Some(i) => i < weights.len() && weights[i as int] > 0,
            None => total(as_ints(weights@)) == 0,
        },
{
    match rand::distributions::WeightedIndex::new(weights) {
        Ok(distribution) => Some(distribution.sample(&mut rand::thread_rng())),
        Err(_) => None,
    }
}

} // verus!
