//! The playing of tracks that come over several paths at once.
pub mod laws;
pub mod locations;
pub mod playout;
pub mod skip;
pub mod window;

pub use playout::{MultipathOptions, MultipathOut, SubscriberParams, Subscription};
pub use skip::{FailoverMethod, SkipMode};
