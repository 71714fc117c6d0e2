//! The language-server client core.
//!
//! This is the decision-making half of the client: the lifecycle state
//! machine, identifier minting, the correlation table, and the routing of
//! inbound messages. It is driven from outside by the code that owns the
//! child process and its two pipes: that code serializes the returned
//! messages, frames and writes them, reads and decodes inbound frames, and
//! performs each `DispatchOutcome`.
//!
//! The ordering invariant of the protocol is built into the shape of the
//! operations: `request` registers the completion handle in the correlation
//! table *before* it returns the message to be written, so a response can
//! never arrive before its correlation entry exists, however fast the
//! background reader observes the flushed bytes.

use vstd::prelude::*;

use crate::correlation::CorrelationTable;
use crate::message::Notification;
use crate::message::Request;
use crate::message::Response;
use crate::message::ServerMessage;
use crate::message::PROTOCOL_VERSION;
use crate::params::did_close_params;
use crate::params::did_close_params_text;
use crate::params::did_open_params;
use crate::params::did_open_params_text;

verus! {

/// The client lifecycle. Generic requests and notifications are permitted
/// only while `Ready`; the handshake and shutdown sequences drive the other
/// transitions.
#[derive(Clone, Copy, Debug, PartialEq, Eq, Structural)]
pub enum Lifecycle {
    /// The analysis process has not been spawned and addressed yet.
    Uninitialized,
    /// The initialize request was sent; its response is awaited.
    Initializing,
    /// The initialized notification was sent; the client is in service.
    Ready,
    /// The shutdown request was sent; its acknowledgement is awaited.
    ShuttingDown,
    /// The exit notification was sent, or the connection was torn down.
    Exited,
}

/// Why a client operation was refused. The client state is left unchanged.
#[derive(Clone, Copy, Debug, PartialEq, Eq, Structural)]
pub enum ClientError {
    /// The operation is not permitted in the current lifecycle state.
    InvalidState,
    /// The response gating this transition has not been delivered yet: the
    /// protocol requires awaiting it before proceeding.
    ResponsePending,
    /// The identifier counter is exhausted.
    IdsExhausted,
}

/// The fatal conditions that tear the client down.
#[derive(Debug)]
pub enum ProtocolFault {
    /// A malformed frame header or an unparseable payload arrived. Framing
    /// cannot be resynchronized after a corrupt header.
    Malformed,
    /// A response referenced an identifier with no pending request: a
    /// protocol-level inconsistency, never silently dropped.
    UnknownId { id: u64 },
    /// The transport closed or failed.
    Disconnected,
}

/// One inbound occurrence on the wire, as the reading side observed it.
#[derive(Debug)]
pub enum WireEvent {
    /// A frame arrived and its payload parsed as a message.
    Message(ServerMessage),
    /// A frame or its payload was malformed.
    Garbled,
    /// The transport reported end-of-file or a read error.
    Closed,
}

/// What the dispatch loop must do with one inbound wire event.
pub enum DispatchOutcome<T> {
    /// Fulfill this completion handle with this response: it belongs to the
    /// caller that registered the handle, whatever order responses arrive in.
    Deliver { handle: T, response: Response },
    /// Forward this notification to the editor's event queue, in arrival
    /// order.
    Publish { note: Notification },
    /// Fatal: stop the loop, and fail every abandoned completion handle with
    /// a disconnect error so that no caller stays blocked.
    Teardown { fault: ProtocolFault, abandoned: Vec<T> },
}

/// The parameter text of the initialize request: an empty capability set.
pub open spec fn initialize_params() -> Seq<char> {
    "{\"capabilities\":{}}"@
}

/// The parameter text of the initialized notification.
pub open spec fn empty_params() -> Seq<char> {
    "{}"@
}

/// The parameter text of the shutdown request and the exit notification.
pub open spec fn null_params() -> Seq<char> {
    "null"@
}

/// The notifications among `msgs`, in wire order.
pub open spec fn wire_notes(msgs: Seq<ServerMessage>) -> Seq<Notification>
    decreases msgs.len(),
{
    if msgs.len() == 0 {
        Seq::empty()
    } else {
        let rest = wire_notes(msgs.drop_first());
        match msgs.first() {
            ServerMessage::Notification(n) => seq![n] + rest,
            ServerMessage::Response(_) => rest,
        }
    }
}

/// The notifications the dispatch loop publishes when `msgs` arrive in that
/// order over the correlation `m`, one `on_wire_event` cycle per message: a
/// notification is published at once, a response resolves (removes) its
/// entry, and a response with an unknown identifier tears the loop down, so
/// nothing after it is published.
pub open spec fn published_notes<T>(m: Map<u64, T>, msgs: Seq<ServerMessage>) -> Seq<Notification>
    decreases msgs.len(),
{
    if msgs.len() == 0 {
        Seq::empty()
    } else {
        match msgs.first() {
            ServerMessage::Notification(n) => seq![n] + published_notes(m, msgs.drop_first()),
            ServerMessage::Response(resp) => if m.contains_key(resp.id) {
                published_notes(m.remove(resp.id), msgs.drop_first())
            } else {
                Seq::empty()
            },
        }
    }
}

/// Whether every response among `msgs` finds its identifier outstanding when
/// it arrives: the run completes without a protocol violation.
pub open spec fn clean_run<T>(m: Map<u64, T>, msgs: Seq<ServerMessage>) -> bool
    decreases msgs.len(),
{
    if msgs.len() == 0 {
        true
    } else {
        match msgs.first() {
            ServerMessage::Notification(_) => clean_run(m, msgs.drop_first()),
            ServerMessage::Response(resp) => m.contains_key(resp.id) && clean_run(
                m.remove(resp.id),
                msgs.drop_first(),
            ),
        }
    }
}

/// Notification ordering: on a run without protocol violations,
/// notifications interleaved with responses on the wire are published in
/// exactly the relative order in which the peer wrote them.
pub proof fn lemma_notification_ordering<T>(m: Map<u64, T>, msgs: Seq<ServerMessage>)
    requires
        clean_run(m, msgs),
    ensures
        published_notes(m, msgs) == wire_notes(msgs),
    decreases msgs.len(),
{
    if msgs.len() > 0 {
        match msgs.first() {
            ServerMessage::Notification(_) => {
                lemma_notification_ordering(m, msgs.drop_first());
            },
            ServerMessage::Response(resp) => {
                lemma_notification_ordering(m.remove(resp.id), msgs.drop_first());
            },
        }
    }
}

/// The client core: lifecycle, identifier counter, and correlation table.
/// `T` is the completion handle type; the core stores and returns handles
/// without looking inside them.
pub struct Client<T> {
    state: Lifecycle,
    next_id: u64,
    awaited: Option<u64>,
    pending: CorrelationTable<T>,
}

impl<T> Client<T> {
    /// The current lifecycle state.
    pub closed spec fn lifecycle(&self) -> Lifecycle {
        self.state
    }

    /// The identifier the next request will carry. Identifiers are minted
    /// from this monotonic counter, so an identifier is never reused while
    /// outstanding.
    pub closed spec fn next_request_id(&self) -> u64 {
        self.next_id
    }

    /// The identifier whose response gates the current handshake phase, if
    /// one does.
    pub closed spec fn awaited(&self) -> Option<u64> {
        self.awaited
    }

    /// The correlation: outstanding identifier to completion handle.
    pub closed spec fn pending(&self) -> Map<u64, T> {
        self.pending.table()
    }

    /// Outstanding identifiers in registration order.
    pub closed spec fn pending_order(&self) -> Seq<u64> {
        self.pending.order()
    }

    /// Outstanding completion handles in registration order.
    pub closed spec fn pending_handles(&self) -> Seq<T> {
        self.pending.handles()
    }

    /// Internal consistency: the correlation table is well-formed, every
    /// outstanding identifier is below the counter (so minted identifiers
    /// are fresh), and the handshake phases have their gating identifier.
    pub closed spec fn wf(&self) -> bool {
        &&& self.pending.wf()
        &&& forall|id: u64| #[trigger] self.pending.table().contains_key(id) ==> id < self.next_id
        &&& (self.state is Initializing || self.state is ShuttingDown) ==> self.awaited is Some
    }

    /// A fresh client: nothing spawned, nothing outstanding.
    pub fn new() -> (r: Client<T>)
        ensures
            r.wf(),
            r.lifecycle() is Uninitialized,
            r.next_request_id() == 1,
            r.pending() == Map::<u64, T>::empty(),
            r.pending_order() == Seq::<u64>::empty(),
            r.pending_handles() == Seq::<T>::empty(),
    {
        Client { state: Lifecycle::Uninitialized, next_id: 1, awaited: None, pending: CorrelationTable::new() }
    }

    /// The current lifecycle state.
    pub fn phase(&self) -> (r: Lifecycle)
        ensures
            r == self.lifecycle(),
    {
        self.state
    }

    /// How many requests are outstanding.
    pub fn pending_count(&self) -> (r: usize)
        ensures
            r == self.pending_order().len(),
    {
        self.pending.len()
    }

    /// Mints an identifier and registers `handle` under it. Callable only
    /// when minting can succeed; the caller tests the counter first.
    fn mint_and_register(&mut self, handle: T) -> (id: u64)
        requires
            old(self).wf(),
            old(self).next_request_id() < u64::MAX,
        ensures
            final(self).wf(),
            id == old(self).next_request_id(),
            final(self).next_request_id() == old(self).next_request_id() + 1,
            final(self).lifecycle() == old(self).lifecycle(),
            final(self).awaited() == old(self).awaited(),
            final(self).pending() == old(self).pending().insert(id, handle),
            final(self).pending_order() == old(self).pending_order().push(id),
            final(self).pending_handles() == old(self).pending_handles().push(handle),
    {
        let id = self.next_id;
        self.next_id = id + 1;
        assert(!self.pending.table().contains_key(id));
        let registered = self.pending.register(id, handle);
        assert(registered);
        id
    }

    /// Starts the handshake: mints an identifier, registers the completion
    /// handle for the initialize response *before* returning the request to
    /// be written, and moves to `Initializing`. The returned request carries
    /// the `initialize` method and an empty capability set.
    pub fn initialize(&mut self, handle: T) -> (r: Result<Request, ClientError>)
        requires
            old(self).wf(),
        ensures
            final(self).wf(),
            (r is Ok <==> old(self).lifecycle() is Uninitialized && old(self).next_request_id()
                < u64::MAX),
            (r matches Ok(req) ==> {
                &&& req.id == old(self).next_request_id()
                &&& req.jsonrpc@ == PROTOCOL_VERSION@
                &&& req.method@ == "initialize"@
                &&& req.params@ == initialize_params()
                &&& final(self).lifecycle() is Initializing
                &&& final(self).awaited() == Some(req.id)
                &&& final(self).next_request_id() == old(self).next_request_id() + 1
                &&& final(self).pending() == old(self).pending().insert(req.id, handle)
                &&& final(self).pending_order() == old(self).pending_order().push(req.id)
                &&& final(self).pending_handles() == old(self).pending_handles().push(handle)
            }),
            (r matches Err(e) ==> *final(self) == *old(self) && (e is InvalidState <==> !(old(self).lifecycle() is Uninitialized)) && (e is IdsExhausted <==> old(self).lifecycle()
                is Uninitialized && old(self).next_request_id() == u64::MAX)),
    {
        match self.state {
            Lifecycle::Uninitialized => {},
            _ => { return Err(ClientError::InvalidState) },
        }
        if self.next_id == u64::MAX {
            return Err(ClientError::IdsExhausted);
        }
        let id = self.mint_and_register(handle);
        self.state = Lifecycle::Initializing;
        self.awaited = Some(id);
        Ok(Request::new(id, "initialize", "{\"capabilities\":{}}"))
    }

    /// Finishes the handshake once the initialize response has been
    /// delivered: returns the `initialized` notification to be written and
    /// moves to `Ready`. Refused with `ResponsePending` while the initialize
    /// response is still outstanding.
    pub fn initialized(&mut self) -> (r: Result<Notification, ClientError>)
        requires
            old(self).wf(),
        ensures
            final(self).wf(),
            (r is Ok <==> old(self).lifecycle() is Initializing && !old(self).pending().contains_key(
                old(self).awaited()->0,
            )),
            (r matches Ok(note) ==> {
                &&& note.jsonrpc@ == PROTOCOL_VERSION@
                &&& note.method@ == "initialized"@
                &&& note.params@ == empty_params()
                &&& final(self).lifecycle() is Ready
                &&& final(self).awaited() is None
                &&& final(self).next_request_id() == old(self).next_request_id()
                &&& final(self).pending() == old(self).pending()
                &&& final(self).pending_order() == old(self).pending_order()
                &&& final(self).pending_handles() == old(self).pending_handles()
            }),
            (r matches Err(e) ==> *final(self) == *old(self) && (e is InvalidState <==> !(old(self).lifecycle() is Initializing)) && (e is ResponsePending <==> old(self).lifecycle()
                is Initializing && old(self).pending().contains_key(old(self).awaited()->0))),
    {
        match self.state {
            Lifecycle::Initializing => {},
            _ => { return Err(ClientError::InvalidState) },
        }
        let id = match self.awaited {
            Some(id) => id,
            None => { return Err(ClientError::InvalidState) },
        };
        if self.pending.contains(id) {
            return Err(ClientError::ResponsePending);
        }
        self.state = Lifecycle::Ready;
        self.awaited = None;
        Ok(Notification::new("initialized", "{}"))
    }

    /// Issues a generic request: valid only while `Ready`. Mints a fresh
    /// identifier and registers the completion handle under it before
    /// returning the request to be written; the caller then writes the
    /// framed bytes and awaits the handle. `params` is the parameter payload
    /// as JSON text.
    pub fn request(&mut self, method: &str, params: &str, handle: T) -> (r: Result<
        Request,
        ClientError,
    >)
        requires
            old(self).wf(),
        ensures
            final(self).wf(),
            (r is Ok <==> old(self).lifecycle() is Ready && old(self).next_request_id()
                < u64::MAX),
            (r matches Ok(req) ==> {
                &&& req.id == old(self).next_request_id()
                &&& req.jsonrpc@ == PROTOCOL_VERSION@
                &&& req.method@ == method@
                &&& req.params@ == params@
                &&& !old(self).pending().contains_key(req.id)
                &&& final(self).lifecycle() is Ready
                &&& final(self).awaited() == old(self).awaited()
                &&& final(self).next_request_id() == old(self).next_request_id() + 1
                &&& final(self).pending() == old(self).pending().insert(req.id, handle)
                &&& final(self).pending_order() == old(self).pending_order().push(req.id)
                &&& final(self).pending_handles() == old(self).pending_handles().push(handle)
            }),
            (r matches Err(e) ==> *final(self) == *old(self) && (e is InvalidState <==> !(old(self).lifecycle() is Ready)) && (e is IdsExhausted <==> old(self).lifecycle() is Ready
                && old(self).next_request_id() == u64::MAX)),
    {
        match self.state {
            Lifecycle::Ready => {},
            _ => { return Err(ClientError::InvalidState) },
        }
        if self.next_id == u64::MAX {
            return Err(ClientError::IdsExhausted);
        }
        let id = self.mint_and_register(handle);
        Ok(Request::new(id, method, params))
    }

    /// Builds a generic notification: fire-and-forget, valid only while
    /// `Ready`. No correlation entry is created and no response is ever
    /// expected; once the caller has flushed the framed bytes, the send has
    /// succeeded, which says nothing about the peer processing it.
    pub fn notify(&self, method: &str, params: &str) -> (r: Result<Notification, ClientError>)
        ensures
            (r is Ok <==> self.lifecycle() is Ready),
            (r matches Ok(note) ==> note.jsonrpc@ == PROTOCOL_VERSION@ && note.method@ == method@
                && note.params@ == params@),
            (r matches Err(e) ==> e is InvalidState),
    {
        match self.state {
            Lifecycle::Ready => {},
            _ => { return Err(ClientError::InvalidState) },
        }
        Ok(Notification::new(method, params))
    }

    /// The document-open convenience notification: fixed method name and
    /// parameter shape over the language identifier, document URI and text.
    pub fn did_open(&self, language_id: &str, uri: &str, text: &str) -> (r: Result<
        Notification,
        ClientError,
    >)
        ensures
            (r is Ok <==> self.lifecycle() is Ready),
            (r matches Ok(note) ==> note.jsonrpc@ == PROTOCOL_VERSION@ && note.method@
                == "textDocument/didOpen"@ && note.params@ == did_open_params_text(
                language_id@,
                uri@,
                text@,
            )),
            (r matches Err(e) ==> e is InvalidState),
    {
        match self.state {
            Lifecycle::Ready => {},
            _ => { return Err(ClientError::InvalidState) },
        }
        let params = did_open_params(language_id, uri, text);
        Ok(Notification::new("textDocument/didOpen", params.as_str()))
    }

    /// The document-close convenience notification.
    pub fn did_close(&self, uri: &str) -> (r: Result<Notification, ClientError>)
        ensures
            (r is Ok <==> self.lifecycle() is Ready),
            (r matches Ok(note) ==> note.jsonrpc@ == PROTOCOL_VERSION@ && note.method@
                == "textDocument/didClose"@ && note.params@ == did_close_params_text(uri@)),
            (r matches Err(e) ==> e is InvalidState),
    {
        match self.state {
            Lifecycle::Ready => {},
            _ => { return Err(ClientError::InvalidState) },
        }
        let params = did_close_params(uri);
        Ok(Notification::new("textDocument/didClose", params.as_str()))
    }

    /// Starts the shutdown sequence: valid only while `Ready`. Registers a
    /// completion handle for the shutdown acknowledgement and moves to
    /// `ShuttingDown`; the protocol requires that acknowledgement before the
    /// exit notification may follow.
    pub fn shutdown(&mut self, handle: T) -> (r: Result<Request, ClientError>)
        requires
            old(self).wf(),
        ensures
            final(self).wf(),
            (r is Ok <==> old(self).lifecycle() is Ready && old(self).next_request_id()
                < u64::MAX),
            (r matches Ok(req) ==> {
                &&& req.id == old(self).next_request_id()
                &&& req.jsonrpc@ == PROTOCOL_VERSION@
                &&& req.method@ == "shutdown"@
                &&& req.params@ == null_params()
                &&& final(self).lifecycle() is ShuttingDown
                &&& final(self).awaited() == Some(req.id)
                &&& final(self).next_request_id() == old(self).next_request_id() + 1
                &&& final(self).pending() == old(self).pending().insert(req.id, handle)
                &&& final(self).pending_order() == old(self).pending_order().push(req.id)
                &&& final(self).pending_handles() == old(self).pending_handles().push(handle)
            }),
            (r matches Err(e) ==> *final(self) == *old(self) && (e is InvalidState <==> !(old(self).lifecycle() is Ready)) && (e is IdsExhausted <==> old(self).lifecycle() is Ready
                && old(self).next_request_id() == u64::MAX)),
    {
        match self.state {
            Lifecycle::Ready => {},
            _ => { return Err(ClientError::InvalidState) },
        }
        if self.next_id == u64::MAX {
            return Err(ClientError::IdsExhausted);
        }
        let id = self.mint_and_register(handle);
        self.state = Lifecycle::ShuttingDown;
        self.awaited = Some(id);
        Ok(Request::new(id, "shutdown", "null"))
    }

    /// Finishes the shutdown sequence once the acknowledgement has been
    /// delivered: returns the `exit` notification to be written and moves to
    /// `Exited`. Refused with `ResponsePending` while the shutdown response
    /// is still outstanding: the response is strictly awaited before exit.
    pub fn exit(&mut self) -> (r: Result<Notification, ClientError>)
        requires
            old(self).wf(),
        ensures
            final(self).wf(),
            (r is Ok <==> old(self).lifecycle() is ShuttingDown && !old(self).pending().contains_key(old(self).awaited()->0)),
            (r matches Ok(note) ==> {
                &&& note.jsonrpc@ == PROTOCOL_VERSION@
                &&& note.method@ == "exit"@
                &&& note.params@ == null_params()
                &&& final(self).lifecycle() is Exited
                &&& final(self).next_request_id() == old(self).next_request_id()
                &&& final(self).pending() == old(self).pending()
                &&& final(self).pending_order() == old(self).pending_order()
                &&& final(self).pending_handles() == old(self).pending_handles()
            }),
            (r matches Err(e) ==> *final(self) == *old(self) && (e is InvalidState <==> !(old(self).lifecycle() is ShuttingDown)) && (e is ResponsePending <==> old(self).lifecycle()
                is ShuttingDown && old(self).pending().contains_key(old(self).awaited()->0))),
    {
        match self.state {
            Lifecycle::ShuttingDown => {},
            _ => { return Err(ClientError::InvalidState) },
        }
        let id = match self.awaited {
            Some(id) => id,
            None => { return Err(ClientError::InvalidState) },
        };
        if self.pending.contains(id) {
            return Err(ClientError::ResponsePending);
        }
        self.state = Lifecycle::Exited;
        self.awaited = None;
        Ok(Notification::new("exit", "null"))
    }

    /// Routes one inbound wire event; one call is one dispatch cycle.
    ///
    /// A response whose identifier is outstanding is delivered to exactly
    /// the handle registered under it. A response referencing an unknown
    /// identifier is a protocol violation, not ignored: the client is torn
    /// down. A notification is published in arrival order. A garbled frame
    /// or a closed transport likewise tears the client down. Every teardown
    /// hands back all still-pending handles, so that with K requests pending
    /// all K callers are failed with a disconnect error in this same cycle
    /// and none stays blocked.
    pub fn on_wire_event(&mut self, ev: WireEvent) -> (r: DispatchOutcome<T>)
        requires
            old(self).wf(),
        ensures
            final(self).wf(),
            (ev matches WireEvent::Message(ServerMessage::Notification(n)) ==> r == (
            DispatchOutcome::<T>::Publish { note: n }) && *final(self) == *old(self)),
            (ev matches WireEvent::Message(ServerMessage::Response(resp)) ==> {
                &&& (old(self).pending().contains_key(resp.id) ==> {
                    &&& r == (DispatchOutcome::Deliver {
                        handle: old(self).pending()[resp.id],
                        response: resp,
                    })
                    &&& final(self).pending() == old(self).pending().remove(resp.id)
                    &&& final(self).lifecycle() == old(self).lifecycle()
                    &&& final(self).next_request_id() == old(self).next_request_id()
                    &&& final(self).awaited() == old(self).awaited()
                    &&& exists|i: int|
                        0 <= i < old(self).pending_order().len() && old(self).pending_order()[i]
                            == resp.id && final(self).pending_order() == old(
                            self,
                        ).pending_order().remove(i) && final(self).pending_handles() == old(
                            self,
                        ).pending_handles().remove(i)
                })
                &&& (!old(self).pending().contains_key(resp.id) ==> (r matches
                    DispatchOutcome::Teardown { fault: ProtocolFault::UnknownId { id }, abandoned }
                    && id == resp.id && abandoned@ == old(self).pending_handles()))
            }),
            (ev is Garbled ==> (r matches DispatchOutcome::Teardown {
                fault: ProtocolFault::Malformed,
                abandoned,
            } && abandoned@ == old(self).pending_handles())),
            (ev is Closed ==> (r matches DispatchOutcome::Teardown {
                fault: ProtocolFault::Disconnected,
                abandoned,
            } && abandoned@ == old(self).pending_handles())),
            (r is Teardown ==> final(self).lifecycle() is Exited && final(self).pending()
                == Map::<u64, T>::empty() && final(self).pending_order() == Seq::<u64>::empty()
                && final(self).next_request_id() == old(self).next_request_id()),
            (r is Teardown <==> ev is Garbled || ev is Closed || (ev matches WireEvent::Message(
                ServerMessage::Response(resp),
            ) && !old(self).pending().contains_key(resp.id))),
    {
        match ev {
            WireEvent::Message(ServerMessage::Notification(n)) => {
                DispatchOutcome::Publish { note: n }
            },
            WireEvent::Message(ServerMessage::Response(resp)) => {
                match self.pending.resolve(resp.id) {
                    Some(handle) => {
                        proof {
                            let i = choose|i: int|
                                0 <= i < old(self).pending.order().len() && old(
                                    self,
                                ).pending.order()[i] == resp.id && self.pending.order() == old(
                                    self,
                                ).pending.order().remove(i) && self.pending.handles() == old(
                                    self,
                                ).pending.handles().remove(i);
                            assert(0 <= i < old(self).pending_order().len() && old(
                                self,
                            ).pending_order()[i] == resp.id && self.pending_order() == old(
                                self,
                            ).pending_order().remove(i) && self.pending_handles() == old(
                                self,
                            ).pending_handles().remove(i));
                        }
                        DispatchOutcome::Deliver { handle, response: resp }
                    },
                    None => {
                        let abandoned = self.pending.drain();
                        self.state = Lifecycle::Exited;
                        DispatchOutcome::Teardown {
                            fault: ProtocolFault::UnknownId { id: resp.id },
                            abandoned,
                        }
                    },
                }
            },
            WireEvent::Garbled => {
                let abandoned = self.pending.drain();
                self.state = Lifecycle::Exited;
                DispatchOutcome::Teardown { fault: ProtocolFault::Malformed, abandoned }
            },
            WireEvent::Closed => {
                let abandoned = self.pending.drain();
                self.state = Lifecycle::Exited;
                DispatchOutcome::Teardown { fault: ProtocolFault::Disconnected, abandoned }
            },
        }
    }
}

} // verus!
