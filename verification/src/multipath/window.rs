//! The latest few of a series of values.
use itertools::Itertools;
use vstd::prelude::*;
use vstd::relations::sorted_by;

verus! {

/// How many values have to be there, and one more, before anything is concluded from them.
pub const MIN_LEN: usize = 2;

/// The latest values of a series, oldest first, and how many of them are kept.
#[derive(Debug)]
pub struct SlidingWindow<T> {
    pub values: Vec<T>,
    pub max_length: usize,
}

/// The values that are there once another has come.
pub open spec fn window_insert<T>(values: Seq<T>, max_length: nat, t: T) -> Seq<T> {
    if values.len() == max_length {
        values.drop_first().push(t)
    } else {
        values.push(t)
    }
}

/// The last values of a series, as many as a window of that length keeps.
pub open spec fn latest<T>(series: Seq<T>, max_length: nat) -> Seq<T> {
    if series.len() <= max_length {
        series
    } else {
        series.skip(series.len() - max_length)
    }
}

impl<T> SlidingWindow<T> {
    /// Whether no more values are there than are kept.
    pub open spec fn wf(&self) -> bool {
        self.values@.len() <= self.max_length
    }

    /// A window without values.
    pub fn new(max_length: usize) -> (res: SlidingWindow<T>)
        ensures
            res.wf(),
            res.values@ == Seq::<T>::empty(),
            res.max_length == max_length,
    {
        SlidingWindow { values: Vec::new(), max_length }
    }

    /// Takes the next value of the series, and lets go of the oldest where there is no room.
    pub fn insert(&mut self, t: T)
        requires
            old(self).wf(),
            old(self).max_length > 0,
        ensures
            final(self).wf(),
            final(self).values@ == window_insert(old(self).values@, old(self).max_length as nat, t),
            final(self).max_length == old(self).max_length,
    {
        if self.values.len() == self.max_length {
            self.values.remove(0);
            assert(self.values@ =~= old(self).values@.drop_first());
        }
        self.values.push(t);
    }

    /// Whether there are enough values to conclude anything from them.
    pub fn enough(&self) -> (res: bool)
        ensures
            res == (self.values@.len() > MIN_LEN),
    {
        self.values.len() > MIN_LEN
    }
}

/// A window holds the last values of the series that it was given.
pub proof fn window_keeps_the_latest<T>(series: Seq<T>, max_length: nat, t: T)
    requires
        max_length > 0,
    ensures
        window_insert(latest(series, max_length), max_length, t) == latest(
            series.push(t),
            max_length,
        ),
{
    assert(window_insert(latest(series, max_length), max_length, t) =~= latest(
        series.push(t),
        max_length,
    ));
}

/// Values in ascending order.
pub open spec fn ascending(values: Seq<i128>) -> Seq<i128> {
    values.sort_by(|a: i128, b: i128| a <= b)
}

/// `itertools::Itertools::sorted`: the values in ascending order, none left out and none added.
#[verifier::external_body]
fn sorted(values: &Vec<i128>) -> (res: Vec<i128>)
    ensures
        res@.to_multiset() == values@.to_multiset(),
        forall|i: int, j: int| 0 <= i <= j < res@.len() ==> res@[i] <= res@[j],
{
    values.iter().cloned().sorted().collect()
}

impl SlidingWindow<i128> {
    /// The value at the 95th percentile, if there are any values.
    pub fn p95(&self) -> (res: Option<i128>)
        requires
            95 * self.values@.len() <= usize::MAX,
        ensures
            res == if self.values@.len() == 0 {
                None
            } else {
                Some(ascending(self.values@)[95 * self.values@.len() as int / 100])
            },
    {
        let sorted: Vec<i128> = sorted(&self.values);
        proof {
            let leq = |a: i128, b: i128| a <= b;
            self.values@.lemma_sort_by_ensures(leq);
            assert(sorted_by(sorted@, leq));
            vstd::seq_lib::lemma_sorted_unique(sorted@, ascending(self.values@), leq);
            sorted@.to_multiset_ensures();
            self.values@.to_multiset_ensures();
        }
        let index: usize = 95 * sorted.len() / 100;
        if index < sorted.len() {
            Some(sorted[index])
        } else {
            None
        }
    }
}

/// The 95th percentile is one of the values, at least 95 in 100 of the values are not above it, and
/// those behind it in ascending order are not below it.
pub proof fn p95_splits_the_values(values: Seq<i128>)
    requires
        values.len() > 0,
    ensures
        ({
            let sorted = ascending(values);
            let index = 95 * values.len() as int / 100;
            &&& sorted.to_multiset() == values.to_multiset()
            &&& sorted.len() == values.len()
            &&& 0 <= index < values.len()
            &&& 100 * (index + 1) > 95 * values.len()
            &&& values.contains(sorted[index])
            &&& forall|i: int| 0 <= i <= index ==> sorted[i] <= sorted[index]
            &&& forall|i: int| index <= i < values.len() ==> sorted[index] <= sorted[i]
        }),
{
    let leq = |a: i128, b: i128| a <= b;
    values.lemma_sort_by_ensures(leq);
    let sorted = ascending(values);
    let index = 95 * values.len() as int / 100;
    values.to_multiset_ensures();
    sorted.to_multiset_ensures();
    assert(sorted.contains(sorted[index]));
    assert forall|i: int| 0 <= i <= index implies sorted[i] <= sorted[index] by {
        assert(leq(sorted[i], sorted[index]));
    }
    assert forall|i: int| index <= i < values.len() implies sorted[index] <= sorted[i] by {
        assert(leq(sorted[index], sorted[i]));
    }
}

} // verus!
