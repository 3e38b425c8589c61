//! The session as a subscription sees it: somewhere to send messages to.
use crate::message::control::Message;
use crate::message::control::MessageView;
use crate::serve::ServeError;
use vstd::prelude::*;

verus! {

/// What the messages of a queue say.
pub open spec fn messages(queue: Seq<Message>) -> Seq<MessageView> {
    queue.map_values(|m: Message| m@)
}

/// The subscribing end of a session.
#[derive(Debug)]
pub struct Subscriber {
    /// What is still to be sent, first message first.
    pub outgoing: Vec<Message>,
}

impl View for Subscriber {
    type V = Seq<MessageView>;

    open spec fn view(&self) -> Seq<MessageView> {
        messages(self.outgoing@)
    }
}

impl Subscriber {
    /// A session to which nothing has been sent.
    pub fn new() -> (res: Subscriber)
        ensures
            res@ == Seq::<MessageView>::empty(),
    {
        let res = Subscriber { outgoing: Vec::new() };
        assert(res@ =~= Seq::<MessageView>::empty());
        res
    }

    /// Queues a message behind those that are still to be sent.
    pub fn send_message(&mut self, message: Message)
        ensures
            final(self)@ == old(self)@.push(message@),
    {
        self.outgoing.push(message);
        assert(self@ =~= old(self)@.push(message@));
    }
}

/// The publishing end of a session.
#[derive(Debug)]
pub struct Publisher {
    /// What is still to be sent, first message first.
    pub outgoing: Vec<Message>,
}

impl View for Publisher {
    type V = Seq<MessageView>;

    open spec fn view(&self) -> Seq<MessageView> {
        messages(self.outgoing@)
    }
}

impl Publisher {
    /// A session to which nothing has been sent.
    pub fn new() -> (res: Publisher)
        ensures
            res@ == Seq::<MessageView>::empty(),
    {
        let res = Publisher { outgoing: Vec::new() };
        assert(res@ =~= Seq::<MessageView>::empty());
        res
    }

    /// Queues a message behind those that are still to be sent.
    pub fn send_message(&mut self, message: Message)
        ensures
            final(self)@ == old(self)@.push(message@),
    {
        self.outgoing.push(message);
        assert(self@ =~= old(self)@.push(message@));
    }
}

/// Why a session cannot go on.
#[derive(Debug)]
pub enum SessionError {
    /// What was served failed.
    Serve(ServeError),
    /// The session itself failed, for this reason.
    Session(String),
}

impl SessionError {
    /// The error that the subscription is closed with.
    pub open spec fn serve_error(&self) -> ServeError {
        match self {
            SessionError::Serve(err) => *err,
            SessionError::Session(reason) => ServeError::Internal(*reason),
        }
    }

    /// The error that the subscription is closed with.
    pub fn to_serve_error(&self) -> (res: ServeError)
        ensures
            res == self.serve_error(),
    {
        match self {
            SessionError::Serve(err) => err.clone(),
            SessionError::Session(reason) => ServeError::Internal(reason.clone()),
        }
    }
}

} // verus!
