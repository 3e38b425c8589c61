//! The other messages about subscriptions, and the message of any kind.
use super::subscribe::GroupOrder;
use super::subscribe::Subscribe;
use super::subscribe::SubscribeView;
use super::subscribe_update::SubscribeUpdate;
use super::subscribe_update::SubscribeUpdateView;
use vstd::prelude::*;

verus! {

/// Sent by the publisher to accept a subscription.
#[derive(Clone, Copy, Debug)]
pub struct SubscribeOk {
    pub id: u64,
    pub expires: Option<u64>,
    pub group_order: GroupOrder,
    /// The latest group, and the latest object in it, if there is any.
    pub latest: Option<(u64, u64)>,
}

/// Sent by the publisher to refuse a subscription.
#[derive(Debug)]
pub struct SubscribeError {
    pub id: u64,
    pub alias: u64,
    pub code: u64,
    pub reason: String,
}

/// Sent by the publisher when an accepted subscription ends.
#[derive(Debug)]
pub struct SubscribeDone {
    pub id: u64,
    pub code: u64,
    /// How many streams were opened for the subscription.
    pub count: u64,
    pub reason: String,
}

/// Sent by the subscriber to end a subscription.
#[derive(Clone, Copy, Debug)]
pub struct Unsubscribe {
    pub id: u64,
}

/// A message about subscriptions.
#[derive(Debug)]
pub enum Message {
    Subscribe(Subscribe),
    SubscribeUpdate(SubscribeUpdate),
    SubscribeOk(SubscribeOk),
    SubscribeError(SubscribeError),
    SubscribeDone(SubscribeDone),
    Unsubscribe(Unsubscribe),
}

/// What a message says.
pub enum MessageView {
    Subscribe(SubscribeView),
    SubscribeUpdate(SubscribeUpdateView),
    SubscribeOk(SubscribeOk),
    SubscribeError { id: u64, alias: u64, code: u64, reason: Seq<char> },
    SubscribeDone { id: u64, code: u64, count: u64, reason: Seq<char> },
    Unsubscribe(Unsubscribe),
}

impl View for Message {
    type V = MessageView;

    open spec fn view(&self) -> MessageView {
        match self {
            Message::Subscribe(m) => MessageView::Subscribe(m@),
            Message::SubscribeUpdate(m) => MessageView::SubscribeUpdate(m@),
            Message::SubscribeOk(m) => MessageView::SubscribeOk(*m),
            Message::SubscribeError(m) => MessageView::SubscribeError {
                id: m.id,
                alias: m.alias,
                code: m.code,
                reason: m.reason@,
            },
            Message::SubscribeDone(m) => MessageView::SubscribeDone {
                id: m.id,
                code: m.code,
                count: m.count,
                reason: m.reason@,
            },
            Message::Unsubscribe(m) => MessageView::Unsubscribe(*m),
        }
    }
}

} // verus!
