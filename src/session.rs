//! The bookkeeping of one session with a lamp: numbering commands, the
//! awaiters of commands in flight, and where each received line goes.
//!
//! The state here holds no socket. The task that owns the socket asks it
//! for the next command before writing, hands it each decoded line, and
//! tells it when an awaiter's timer fires.

use vstd::prelude::*;
use std::collections::HashMap;
use crate::yeelight::{Command, Method, MessageModel, Notification, Response, YeelightMessage, message_of_line};

verus! {

broadcast use vstd::std_specs::hash::group_hash_axioms;

/// Seconds an awaiter waits for its reply.
pub const RESPONSE_TIMEOUT_SECS: u64 = 5;

/// The default TCP port of a lamp.
pub const DEFAULT_PORT: u16 = 55443;

/// The state of a session, with `T` the awaiter of one command (the sending
/// end of a one-shot channel, say).
pub struct Session<T> {
    current_id: u64,
    pending: HashMap<u64, T>,
    issued: Ghost<Seq<u64>>,
}

/// Where a received line goes.
pub enum Routed<T> {
    /// A reply, with the awaiter of the command that it answers.
    Deliver(T, Response),
    /// A reply that no awaiter waits for any more; it is dropped.
    Late(Response),
    /// A notification, for the notification sink.
    Forward(Notification),
}

/// What ended the wait for a reply.
pub enum AwaitEvent {
    Reply(Response),
    TimerFired,
    ChannelClosed,
}

/// Why a command got no reply.
#[derive(Debug, Clone, Copy, PartialEq, Eq, Structural)]
pub enum SendError {
    Timeout,
    Closed,
    /// What came back answers another command.
    WrongReply,
}

impl<T> Session<T> {
    /// The id of the last command issued; 0 before the first.
    pub closed spec fn last_id(&self) -> u64 {
        self.current_id
    }

    /// The awaiters of the commands in flight, by id.
    pub closed spec fn awaiters(&self) -> Map<u64, T> {
        self.pending@
    }

    /// The ids issued so far, in order.
    pub closed spec fn issued(&self) -> Seq<u64> {
        self.issued@
    }

    pub closed spec fn wf(&self) -> bool {
        &&& self.issued@.len() == self.current_id
        &&& forall|i: int| 0 <= i < self.issued@.len() ==> #[trigger] self.issued@[i] == i + 1
        &&& forall|id: u64| #[trigger] self.pending@.contains_key(id) ==> 1 <= id <= self.current_id
    }

    pub proof fn lemma_wf(&self)
        requires
            self.wf(),
        ensures
            self.issued().len() == self.last_id(),
            forall|i: int| 0 <= i < self.issued().len() ==> #[trigger] self.issued()[i] == i + 1,
            forall|id: u64| #[trigger] self.awaiters().contains_key(id) ==> 1 <= id <= self.last_id(),
    {
    }

    /// The id of the last command issued.
    pub fn current_id(&self) -> (r: u64)
        ensures
            r == self.last_id(),
    {
        self.current_id
    }

    pub fn new() -> (s: Session<T>)
        ensures
            s.wf(),
            s.last_id() == 0,
            s.issued() == Seq::<u64>::empty(),
            s.awaiters() == Map::<u64, T>::empty(),
    {
        Session { current_id: 0, pending: HashMap::new(), issued: Ghost(Seq::empty()) }
    }

    /// Numbers `method` with the next id and installs its awaiter, before
    /// the command is written. Once every `u64` id has been used, no
    /// command is issued and nothing changes.
    pub fn issue(&mut self, method: Method, awaiter: T) -> (r: Option<Command>)
        requires
            old(self).wf(),
        ensures
            final(self).wf(),
            old(self).last_id() == u64::MAX ==> r is None && *final(self) == *old(self),
            old(self).last_id() < u64::MAX ==> (r matches Some(c) && {
                &&& c.id == old(self).last_id() + 1
                &&& c.method == method
                &&& final(self).last_id() == c.id
                &&& final(self).issued() == old(self).issued().push(c.id)
                &&& !old(self).awaiters().contains_key(c.id)
                &&& final(self).awaiters() == old(self).awaiters().insert(c.id, awaiter)
            }),
    {
        if self.current_id == u64::MAX {
            return None;
        }
        self.current_id = self.current_id + 1;
        let id = self.current_id;
        self.pending.insert(id, awaiter);
        self.issued = Ghost(self.issued@.push(id));
        Some(Command::new(id, method))
    }

    /// Removes the awaiter of `id`, if it is still there.
    pub fn take_awaiter(&mut self, id: u64) -> (r: Option<T>)
        requires
            old(self).wf(),
        ensures
            final(self).wf(),
            final(self).last_id() == old(self).last_id(),
            final(self).issued() == old(self).issued(),
            final(self).awaiters() == old(self).awaiters().remove(id),
            r == (if old(self).awaiters().contains_key(id) {
                Some(old(self).awaiters()[id])
            } else {
                None::<T>
            }),
    {
        self.pending.remove(&id)
    }

    /// Routes one received message: a reply goes to the awaiter of its id,
    /// which leaves the table, or is dropped when none waits; a
    /// notification goes on to the sink. A reply never reaches the awaiter
    /// of another id.
    pub fn route(&mut self, message: YeelightMessage) -> (r: Routed<T>)
        requires
            old(self).wf(),
        ensures
            final(self).wf(),
            final(self).last_id() == old(self).last_id(),
            final(self).issued() == old(self).issued(),
            match message {
                YeelightMessage::Response(resp) => if old(self).awaiters().contains_key(resp.id) {
                    &&& r == Routed::Deliver(old(self).awaiters()[resp.id], resp)
                    &&& final(self).awaiters() == old(self).awaiters().remove(resp.id)
                } else {
                    &&& r == Routed::<T>::Late(resp)
                    &&& final(self).awaiters() == old(self).awaiters()
                },
                YeelightMessage::Notification(n) => {
                    &&& r == Routed::<T>::Forward(n)
                    &&& final(self).awaiters() == old(self).awaiters()
                },
            },
    {
        match message {
            YeelightMessage::Response(resp) => match self.take_awaiter(resp.id) {
                Some(a) => Routed::Deliver(a, resp),
                None => {
                    assert(self.pending@ =~= old(self).pending@);
                    Routed::Late(resp)
                },
            },
            YeelightMessage::Notification(n) => Routed::Forward(n),
        }
    }

    /// Handles one line read from the socket: a line that is neither a
    /// reply nor a notification gives `None` and changes nothing; any other
    /// is routed as `route` does.
    pub fn receive_line(&mut self, line: &str) -> (r: Option<Routed<T>>)
        requires
            old(self).wf(),
        ensures
            final(self).wf(),
            final(self).last_id() == old(self).last_id(),
            final(self).issued() == old(self).issued(),
            match message_of_line(line@) {
                None => r is None && final(self).awaiters() == old(self).awaiters(),
                Some(MessageModel::Response(resp)) => if old(self).awaiters().contains_key(resp.id) {
                    &&& r matches Some(Routed::Deliver(a, x)) && a == old(self).awaiters()[resp.id] && x@ == resp
                    &&& final(self).awaiters() == old(self).awaiters().remove(resp.id)
                } else {
                    &&& r matches Some(Routed::Late(x)) && x@ == resp
                    &&& final(self).awaiters() == old(self).awaiters()
                },
                Some(MessageModel::Notification(n)) => {
                    &&& r matches Some(Routed::Forward(x)) && x@ == n
                    &&& final(self).awaiters() == old(self).awaiters()
                },
            },
    {
        match YeelightMessage::decode_line(line) {
            Some(message) => Some(self.route(message)),
            None => None,
        }
    }

    /// Ends the wait of the command `id`: its reply completes it, and only a
    /// reply carrying `id` is handed back; a timer or a closed channel fails
    /// it, and its awaiter leaves the table.
    pub fn settle(&mut self, id: u64, event: AwaitEvent) -> (r: Result<Response, SendError>)
        requires
            old(self).wf(),
        ensures
            final(self).wf(),
            final(self).last_id() == old(self).last_id(),
            final(self).issued() == old(self).issued(),
            match event {
                AwaitEvent::Reply(resp) => if resp.id == id {
                    r == Ok::<Response, SendError>(resp) && final(self).awaiters() == old(self).awaiters()
                } else {
                    r == Err::<Response, SendError>(SendError::WrongReply) && final(self).awaiters()
                        == old(self).awaiters().remove(id)
                },
                AwaitEvent::TimerFired => r == Err::<Response, SendError>(SendError::Timeout)
                    && final(self).awaiters() == old(self).awaiters().remove(id),
                AwaitEvent::ChannelClosed => r == Err::<Response, SendError>(SendError::Closed)
                    && final(self).awaiters() == old(self).awaiters().remove(id),
            },
    {
        match event {
            AwaitEvent::Reply(resp) => if resp.id == id {
                Ok(resp)
            } else {
                let _ = self.take_awaiter(id);
                Err(SendError::WrongReply)
            },
            AwaitEvent::TimerFired => {
                let _ = self.take_awaiter(id);
                Err(SendError::Timeout)
            },
            AwaitEvent::ChannelClosed => {
                let _ = self.take_awaiter(id);
                Err(SendError::Closed)
            },
        }
    }
}

/// The ids a session issues are 1, 2, 3, ... in that order, whatever became
/// of the commands before: the k-th is k, each is unique, and each is
/// larger than every one before it.
pub proof fn lemma_ids_increase<T>(s: &Session<T>)
    requires
        s.wf(),
    ensures
        s.issued().len() > 0 ==> s.issued()[0] == 1,
        forall|k: int| 0 <= k < s.issued().len() ==> #[trigger] s.issued()[k] == k + 1,
        forall|i: int, j: int| 0 <= i < j < s.issued().len() ==> s.issued()[i] < s.issued()[j],
        forall|i: int| 0 <= i < s.issued().len() ==> s.issued()[i] <= s.last_id(),
{
    s.lemma_wf();
    assert forall|i: int, j: int| 0 <= i < j < s.issued().len() implies s.issued()[i] < s.issued()[j] by {
        assert(s.issued()[i] == i + 1);
        assert(s.issued()[j] == j + 1);
    }
    assert forall|i: int| 0 <= i < s.issued().len() implies s.issued()[i] <= s.last_id() by {
        assert(s.issued()[i] == i + 1);
    }
}

} // verus!
