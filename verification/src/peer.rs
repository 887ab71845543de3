//! The decisions of a peer's worker: which ids its requests get, which waiting rpc a
//! response belongs to, and what goes back for a request it served.
use vstd::prelude::*;
use std::collections::VecDeque;
use crate::error::peer::{ErrorRpc, ResultRpc};
use crate::message::{Id, Message, Payload};

verus! {

/// What the worker does with a message it read.
pub enum Incoming<Sender, Request, Response, Error> {
    /// Serve the request with the service, and answer under `id`.
    Serve { id: Id, request: Request },
    /// Hand the response (or error) to the rpc that waits on `response_sender`.
    Deliver { response_sender: Sender, result: Result<Response, Error> },
    /// The message does not fit the exchange: the worker stops.
    Stop,
}

/// What one dispatch does to a worker: the request gets the id `id`, which was the next
/// request id; the next request id grows by one; the response sender joins the end of
/// the queue of waiting rpcs under that id; the expected response id stays.
pub open spec fn dispatch_step<Sender>(
    before: PeerState<Sender>,
    after: PeerState<Sender>,
    id: Id,
    response_sender: Sender,
) -> bool {
    &&& after.wf()
    &&& id == before.next_request_id()
    &&& after.next_request_id() == before.next_request_id() + 1
    &&& after.expected_response_id() == before.expected_response_id()
    &&& after.pending() == before.pending().push((id, response_sender))
}

/// The bookkeeping of a peer's worker: the id of its next request, the id of the next
/// response it expects, and the rpcs that wait for a response, oldest first. `Sender`
/// is whatever the caller of an rpc waits on.
pub struct PeerState<Sender> {
    outgoing_id_counter: Id,
    incoming_id_counter: Id,
    outgoing_rpcs: VecDeque<Sender>,
}

impl<Sender> PeerState<Sender> {
    /// The id that the next request gets.
    pub closed spec fn next_request_id(&self) -> Id {
        self.outgoing_id_counter
    }

    /// The id that the next response must carry.
    pub closed spec fn expected_response_id(&self) -> Id {
        self.incoming_id_counter
    }

    /// The rpcs that wait for a response, oldest first, each with the id its request
    /// was sent under.
    pub closed spec fn pending(&self) -> Seq<(Id, Sender)> {
        Seq::new(
            self.outgoing_rpcs@.len(),
            |i: int| ((self.incoming_id_counter + i) as Id, self.outgoing_rpcs@[i]),
        )
    }

    /// Every request sent and not answered yet waits in the queue: as many rpcs wait as
    /// there are ids between the expected response and the next request.
    pub closed spec fn wf(&self) -> bool {
        &&& self.incoming_id_counter <= self.outgoing_id_counter
        &&& self.outgoing_rpcs@.len() == self.outgoing_id_counter - self.incoming_id_counter
    }

    /// A worker that has sent and received nothing.
    pub fn new() -> (r: Self)
        ensures
            r.wf(),
            r.next_request_id() == 0,
            r.expected_response_id() == 0,
            r.pending() == Seq::<(Id, Sender)>::empty(),
    {
        let r = PeerState {
            outgoing_id_counter: 0,
            incoming_id_counter: 0,
            outgoing_rpcs: VecDeque::new(),
        };
        assert(r.pending() =~= Seq::<(Id, Sender)>::empty());
        r
    }

    /// Tells whether another request can get an id: the condition that `dispatch`
    /// requires. The id counter is a `u16` that is not allowed to overflow.
    pub fn can_dispatch(&self) -> (b: bool)
        ensures
            b == (self.next_request_id() < Id::MAX),
    {
        self.outgoing_id_counter < Id::MAX
    }

    /// Sends a request: it gets the next id, and its caller waits for the response.
    /// Returns the message to write.
    pub fn dispatch<Request, Response, Error>(
        &mut self,
        request: Request,
        response_sender: Sender,
    ) -> (m: Message<Request, Response, Error>)
        requires
            old(self).wf(),
            old(self).next_request_id() < Id::MAX,
        ensures
            dispatch_step(*old(self), *final(self), m.id, response_sender),
            m.payload == Payload::<Request, Response, Error>::Request(request),
    {
        let ghost old_pending = self.pending();
        let message = Message { id: self.outgoing_id_counter, payload: Payload::Request(request) };
        self.outgoing_id_counter += 1;
        self.outgoing_rpcs.push_back(response_sender);
        assert(self.pending() =~= old_pending.push((message.id, response_sender)));
        message
    }

    /// Decides what to do with a message read from the other peer. A request is served.
    /// A response or error is for the oldest waiting rpc, and only when it carries that
    /// rpc's id; otherwise the exchange is broken and the worker stops, leaving the state
    /// as it was.
    pub fn receive<Request, Response, Error>(
        &mut self,
        message: Message<Request, Response, Error>,
    ) -> (a: Incoming<Sender, Request, Response, Error>)
        requires
            old(self).wf(),
        ensures
            final(self).wf(),
            final(self).next_request_id() == old(self).next_request_id(),
            match message.payload {
                Payload::Request(request) => {
                    &&& a == Incoming::<Sender, Request, Response, Error>::Serve {
                        id: message.id,
                        request,
                    }
                    &&& *final(self) == *old(self)
                },
                Payload::Response(response) => if old(self).pending().len() > 0
                    && message.id == old(self).pending()[0].0 {
                    &&& a == Incoming::<Sender, Request, Response, Error>::Deliver {
                        response_sender: old(self).pending()[0].1,
                        result: Ok(response),
                    }
                    &&& final(self).pending() == old(self).pending().drop_first()
                    &&& final(self).expected_response_id() == old(self).expected_response_id() + 1
                } else {
                    &&& a == Incoming::<Sender, Request, Response, Error>::Stop
                    &&& final(self).pending() == old(self).pending()
                    &&& final(self).expected_response_id() == old(self).expected_response_id()
                },
                Payload::Error(error) => if old(self).pending().len() > 0 && message.id
                    == old(self).pending()[0].0 {
                    &&& a == Incoming::<Sender, Request, Response, Error>::Deliver {
                        response_sender: old(self).pending()[0].1,
                        result: Err(error),
                    }
                    &&& final(self).pending() == old(self).pending().drop_first()
                    &&& final(self).expected_response_id() == old(self).expected_response_id() + 1
                } else {
                    &&& a == Incoming::<Sender, Request, Response, Error>::Stop
                    &&& final(self).pending() == old(self).pending()
                    &&& final(self).expected_response_id() == old(self).expected_response_id()
                },
            },
    {
        let ghost old_pending = self.pending();
        let result = match message.payload {
            Payload::Request(request) => {
                return Incoming::Serve { id: message.id, request };
            },
            Payload::Response(response) => Ok(response),
            Payload::Error(error) => Err(error),
        };
        // The response must carry the id of the oldest waiting rpc
        if message.id != self.incoming_id_counter {
            return Incoming::Stop;
        }
        let response_sender = match self.outgoing_rpcs.pop_front() {
            Some(sender) => sender,
            None => return Incoming::Stop,
        };
        self.incoming_id_counter += 1;
        assert(self.pending() =~= old_pending.drop_first());
        Incoming::Deliver { response_sender, result }
    }

    /// The ids of the waiting rpcs follow each other: the oldest carries the expected
    /// response id, each next one the id after it, and the next request gets the id after
    /// the newest.
    pub proof fn lemma_pending_ids(&self)
        requires
            self.wf(),
        ensures
            forall|i: int|
                0 <= i < self.pending().len() ==> #[trigger] self.pending()[i].0
                    == self.expected_response_id() + i,
            self.next_request_id() == self.expected_response_id() + self.pending().len(),
    {
    }
}

/// The message that answers the request `id` with what the service gave.
pub fn response_message<Request, Response, Error>(
    id: Id,
    result: Result<Response, Error>,
) -> (m: Message<Request, Response, Error>)
    ensures
        m.id == id,
        match result {
            Ok(response) => m.payload == Payload::<Request, Response, Error>::Response(response),
            Err(error) => m.payload == Payload::<Request, Response, Error>::Error(error),
        },
{
    Message {
        id,
        payload: match result {
            Ok(response) => Payload::Response(response),
            Err(error) => Payload::Error(error),
        },
    }
}

/// What an rpc gives for what came back on its response channel: `None` when the
/// channel closed without a reply, else the service's response or error.
pub fn rpc_result<Response, Error>(reply: Option<Result<Response, Error>>) -> (r: ResultRpc<
    Response,
    Error,
>)
    ensures
        match reply {
            None => r == Err::<Response, ErrorRpc<Error>>(ErrorRpc::StreamClosed),
            Some(Ok(response)) => r == Ok::<Response, ErrorRpc<Error>>(response),
            Some(Err(error)) => r == Err::<Response, ErrorRpc<Error>>(ErrorRpc::RpcError(error)),
        },
{
    match reply {
        Some(Ok(response)) => Ok(response),
        Some(Err(err)) => Err(ErrorRpc::RpcError(err)),
        None => Err(ErrorRpc::StreamClosed),
    }
}

/// Requests dispatched in turn by a fresh worker get the ids 0, 1, 2, ... in the order
/// they were dispatched, and their response senders wait in that order, each under its
/// request's id. `states[k]` is the worker before the `k`-th dispatch, which gave the
/// request the id `ids[k]` and queued `senders[k]`.
pub proof fn lemma_dispatches_in_order<Sender>(
    states: Seq<PeerState<Sender>>,
    ids: Seq<Id>,
    senders: Seq<Sender>,
)
    requires
        states.len() == senders.len() + 1,
        ids.len() == senders.len(),
        states[0].wf(),
        states[0].next_request_id() == 0,
        states[0].pending().len() == 0,
        forall|k: int|
            0 <= k < senders.len() ==> dispatch_step(
                #[trigger] states[k],
                states[k + 1],
                ids[k],
                senders[k],
            ),
    ensures
        forall|k: int| 0 <= k < ids.len() ==> ids[k] == k,
        states.last().pending() == Seq::new(senders.len(), |k: int| (k as Id, senders[k])),
{
    lemma_dispatch_prefix(states, ids, senders, senders.len() as int);
    assert forall|k: int| 0 <= k < ids.len() implies ids[k] == k by {
        lemma_dispatch_prefix(states, ids, senders, k);
        assert(dispatch_step(states[k], states[k + 1], ids[k], senders[k]));
    }
}

proof fn lemma_dispatch_prefix<Sender>(
    states: Seq<PeerState<Sender>>,
    ids: Seq<Id>,
    senders: Seq<Sender>,
    n: int,
)
    requires
        0 <= n <= senders.len(),
        states.len() == senders.len() + 1,
        ids.len() == senders.len(),
        states[0].wf(),
        states[0].next_request_id() == 0,
        states[0].pending().len() == 0,
        forall|k: int|
            0 <= k < senders.len() ==> dispatch_step(
                #[trigger] states[k],
                states[k + 1],
                ids[k],
                senders[k],
            ),
    ensures
        states[n].next_request_id() == n,
        states[n].pending() == Seq::new(n as nat, |k: int| (k as Id, senders[k])),
    decreases n,
{
    if n == 0 {
        assert(states[0].pending() =~= Seq::new(0, |k: int| (k as Id, senders[k])));
    } else {
        lemma_dispatch_prefix(states, ids, senders, n - 1);
        assert(dispatch_step(states[n - 1], states[n], ids[n - 1], senders[n - 1]));
        assert(states[n].pending() =~= Seq::new(n as nat, |k: int| (k as Id, senders[k])));
    }
}

} // verus!
