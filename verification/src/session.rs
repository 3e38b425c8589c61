//! The two ends of a subscription.
pub mod endpoint;
pub mod laws;
pub mod serving;
pub mod subscribe;
pub mod subscribed;

pub use endpoint::{Publisher, SessionError, Subscriber};
pub use subscribe::{Subscribe, SubscribeFilter, SubscribeInfo, SubscribeRecv, SubscribeState};
pub use subscribed::{Subscribed, SubscribedRecv, SubscribedState};
