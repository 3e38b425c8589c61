//! Control messages about subscriptions.
pub mod control;
pub mod laws;
pub mod subscribe;
pub mod subscribe_update;

pub use control::{Message, SubscribeDone, SubscribeError, SubscribeOk, Unsubscribe};
pub use subscribe::{FilterType, FlagParam, GroupOrder, Subscribe, SubscribePair, SubscribeParam};
pub use subscribe_update::SubscribeUpdate;
