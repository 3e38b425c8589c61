//! Which locations of a track have been received.
use crate::message::subscribe::SubscribePair;
use vstd::prelude::*;

verus! {

/// Whether locations strictly increase.
pub open spec fn increasing(locations: Seq<SubscribePair>) -> bool {
    forall|i: int, j: int|
        0 <= i < j < locations.len() ==> (#[trigger] locations[i]).before(#[trigger] locations[j])
}

/// A set of locations. They are held in order, so that one that lies behind most of the others is
/// found at once.
#[derive(Debug)]
pub struct Locations {
    sorted: Vec<SubscribePair>,
}

impl View for Locations {
    type V = Set<SubscribePair>;

    closed spec fn view(&self) -> Set<SubscribePair> {
        self.sorted@.to_set()
    }
}

impl Locations {
    /// Whether the locations are held in order, none of them twice.
    pub closed spec fn wf(&self) -> bool {
        increasing(self.sorted@)
    }

    /// No locations.
    pub fn new() -> (res: Locations)
        ensures
            res.wf(),
            res@ == Set::<SubscribePair>::empty(),
    {
        let res = Locations { sorted: Vec::new() };
        assert(res@ =~= Set::<SubscribePair>::empty());
        res
    }

    /// Where a location is or belongs: behind all earlier ones.
    fn position(&self, location: SubscribePair) -> (res: usize)
        requires
            self.wf(),
        ensures
            res <= self.sorted@.len(),
            forall|j: int| 0 <= j < res ==> (#[trigger] self.sorted@[j]).before(location),
            forall|j: int|
                res <= j < self.sorted@.len() ==> !(#[trigger] self.sorted@[j]).before(location),
    {
        let mut i: usize = self.sorted.len();
        while i > 0 && location <= self.sorted[i - 1]
            invariant
                increasing(self.sorted@),
                i <= self.sorted@.len(),
                forall|j: int|
                    i <= j < self.sorted@.len() ==> !(#[trigger] self.sorted@[j]).before(location),
            decreases i,
        {
            i = i - 1;
        }
        i
    }

    /// Whether a location is there.
    pub fn contains(&self, location: SubscribePair) -> (res: bool)
        requires
            self.wf(),
        ensures
            res == self@.contains(location),
    {
        let i: usize = self.position(location);
        proof {
            if self@.contains(location) {
                let j = choose|j: int| 0 <= j < self.sorted@.len() && self.sorted@[j] == location;
                if i < j {
                    assert(self.sorted@[i as int].before(self.sorted@[j]));
                }
            }
        }
        i < self.sorted.len() && self.sorted[i] == location
    }

    /// Adds a location. Gives whether it was not there yet.
    pub fn insert(&mut self, location: SubscribePair) -> (res: bool)
        requires
            old(self).wf(),
        ensures
            res == !old(self)@.contains(location),
            final(self).wf(),
            final(self)@ == old(self)@.insert(location),
    {
        if self.contains(location) {
            assert(self@ =~= old(self)@.insert(location));
            return false;
        }
        let i: usize = self.position(location);
        proof {
            let before = self.sorted@;
            let after = before.insert(i as int, location);
            assert forall|j: int| 0 <= j < before.len() implies #[trigger] before[j] != location by {
                assert(before.to_set().contains(before[j]));
            }
            assert forall|j: int, k: int| 0 <= j < k < after.len() implies (
            #[trigger] after[j]).before(#[trigger] after[k]) by {
                let (a, b) = (if j < i { j } else { j - 1 }, if k < i { k } else { k - 1 });
                if j != i {
                    assert(after[j] == before[a]);
                }
                if k != i {
                    assert(after[k] == before[b]);
                }
            }
            assert forall|x: SubscribePair| after.to_set().contains(x)
                == before.to_set().insert(location).contains(x) by {
                if before.contains(x) {
                    let j = choose|j: int| 0 <= j < before.len() && before[j] == x;
                    assert(after[if j < i { j } else { j + 1 }] == x);
                }
                assert(after[i as int] == location);
                if after.contains(x) && x != location {
                    let k = choose|k: int| 0 <= k < after.len() && after[k] == x;
                    assert(before[if k < i { k } else { k - 1 }] == x);
                }
            }
            assert(after.to_set() =~= before.to_set().insert(location));
        }
        self.sorted.insert(i, location);
        true
    }
}

} // verus!
