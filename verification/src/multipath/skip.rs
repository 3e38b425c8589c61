//! How far the other paths are told to skip ahead.
use crate::message::subscribe::SubscribePair;
use vstd::prelude::*;

verus! {

/// By how much a path is told to skip ahead.
#[derive(Clone, Copy, Debug, PartialEq, Eq, Structural)]
pub enum SkipMode {
    Disabled,
    /// To so many objects later in the same group.
    SameGroupNextObject(u64),
    /// To the start of so many groups later.
    NextGroupFirstObject(u64),
}

impl SkipMode {
    /// Whether the target of a skip can be named.
    pub open spec fn fits(self, current: SubscribePair) -> bool {
        match self {
            SkipMode::Disabled => true,
            SkipMode::SameGroupNextObject(n) => current.object + n <= u64::MAX,
            SkipMode::NextGroupFirstObject(n) => current.group + n <= u64::MAX,
        }
    }

    /// Whether the target of a skip can be named.
    pub fn can_skip(&self, current: SubscribePair) -> (res: bool)
        ensures
            res == self.fits(current),
    {
        match self {
            SkipMode::Disabled => true,
            SkipMode::SameGroupNextObject(n) => *n <= u64::MAX - current.object,
            SkipMode::NextGroupFirstObject(n) => *n <= u64::MAX - current.group,
        }
    }

    /// Where a path goes on after a skip, if it is to skip at all.
    pub open spec fn target(self, current: SubscribePair) -> Option<SubscribePair> {
        match self {
            SkipMode::Disabled => None,
            SkipMode::SameGroupNextObject(n) => Some(
                SubscribePair { group: current.group, object: (current.object + n) as u64 },
            ),
            SkipMode::NextGroupFirstObject(n) => Some(
                SubscribePair { group: (current.group + n) as u64, object: 0 },
            ),
        }
    }

    /// Where a path goes on after a skip, if it is to skip at all.
    pub fn skip_target(&self, current: SubscribePair) -> (res: Option<SubscribePair>)
        requires
            self.fits(current),
        ensures
            res == self.target(current),
    {
        match self {
            SkipMode::Disabled => None,
            SkipMode::SameGroupNextObject(n) => {
                Some(SubscribePair { group: current.group, object: current.object + *n })
            },
            SkipMode::NextGroupFirstObject(n) => {
                Some(SubscribePair { group: current.group + *n, object: 0 })
            },
        }
    }
}

/// A skip by at least one object or group leads to a later location.
pub proof fn skip_leads_ahead(mode: SkipMode, current: SubscribePair)
    requires
        mode.fits(current),
        mode matches SkipMode::SameGroupNextObject(n) ==> n > 0,
        mode matches SkipMode::NextGroupFirstObject(n) ==> n > 0,
    ensures
        mode is Disabled <==> mode.target(current) is None,
        mode.target(current) matches Some(next) ==> current.before(next),
{
}

/// How a path is told to skip ahead.
#[derive(Clone, Copy, Debug, PartialEq, Eq, Structural)]
pub enum FailoverMethod {
    /// Static mode uses a fixed skip mode throughout the track given as a parameter.
    Static(SkipMode),
    /// Dynamically adapts to the environment observed through QUIC statistics.
    DynamicAdaptive,
}

/// What has been estimated of the objects that arrive over another path until an update takes
/// effect on this one.
#[derive(Clone, Copy, Debug, PartialEq, Eq, Structural)]
pub struct Estimate {
    /// Whether it is no more than one object.
    pub single_object: bool,
    /// How many groups it makes, rounded up.
    pub groups: u64,
}

/// The skip mode that fits an estimate, for groups of at most so many objects.
pub open spec fn adaptive_mode(estimate: Estimate, max_object_per_group: u64) -> SkipMode {
    if estimate.single_object && max_object_per_group > 1 {
        SkipMode::SameGroupNextObject(1)
    } else {
        SkipMode::NextGroupFirstObject(estimate.groups)
    }
}

/// The skip mode that fits an estimate, for groups of at most so many objects.
pub fn adapt(estimate: Estimate, max_object_per_group: u64) -> (res: SkipMode)
    ensures
        res == adaptive_mode(estimate, max_object_per_group),
{
    if estimate.single_object && max_object_per_group > 1 {
        SkipMode::SameGroupNextObject(1)
    } else {
        SkipMode::NextGroupFirstObject(estimate.groups)
    }
}

} // verus!
