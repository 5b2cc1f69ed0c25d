//! Decisions of the fan-in TCP server. The driver owns the listening socket
//! and the readiness poller; this state owns every accepted connection, mints
//! tokens, splits the user-name header from the payload and decides teardown.
//!
//! The driver registers a connection under the token that `accept` returns,
//! reads into its buffer and hands each read to `receive`, hands the payload
//! part of the buffer to its data callback, and calls `close` (then
//! deregisters the stream it gets back) when a read returns nothing or the
//! callback refuses the data. A peer that sends its header and then data
//! only ever has data passed on, in the order it was read.

use std::collections::HashMap;
use vstd::prelude::*;

use crate::codec::{
    decode_header, encodable, frame_len, framed_str, holds_str_frame, lemma_frame_prefix,
    lemma_header_round_trip, str_in_frame,
};

verus! {

broadcast use vstd::std_specs::hash::group_hash_axioms;

/// Token of the listening socket; no connection is ever given it.
pub const SERVER: u64 = 0;

/// Size of the read buffer shared by all connections.
pub const READ_BUFFER_SIZE: usize = 1024;

/// One accepted peer as the contracts see it.
pub ghost struct PeerView<S> {
    /// `None` until the header has been read.
    pub user: Option<Seq<char>>,
    pub stream: S,
    /// Every byte read from the peer so far.
    pub received: Seq<u8>,
    /// Every payload byte handed to the driver so far, in order.
    pub delivered: Seq<u8>,
}

/// The server as the contracts see it.
pub ghost struct ServerView<S> {
    pub peers: Map<u64, PeerView<S>>,
    /// How many connections have been accepted; the last token minted.
    pub accepted: nat,
    pub once: bool,
}

/// What one read means for its connection.
#[derive(Debug, PartialEq, Eq, Clone, Copy, Structural)]
pub enum Received {
    /// The peer has closed its side: tear the connection down.
    Closed,
    /// The read held the header and nothing after it.
    Header,
    /// The read holds payload from `start` to its end.
    Payload { start: usize },
}

#[derive(Debug, PartialEq, Eq, Clone, Copy, Structural)]
pub enum ServerError {
    /// No live connection has this token.
    UnknownToken,
    /// The first read of a connection does not start with a whole header.
    MalformedHeader,
}

/// A connection taken out of the server: the driver deregisters `stream`
/// and drops it, and stops when `keep_running` is false.
pub struct Teardown<S> {
    pub stream: S,
    pub keep_running: bool,
}

/// A peer before anything was read from it.
pub open spec fn fresh_peer<S>(stream: S) -> PeerView<S> {
    PeerView { user: None, stream, received: Seq::empty(), delivered: Seq::empty() }
}

/// The user name, once read, is what the peer sent first, and the rest of
/// what it sent is what was handed on.
pub open spec fn peer_consistent<S>(p: PeerView<S>) -> bool {
    match p.user {
        None => p.received.len() == 0 && p.delivered.len() == 0,
        Some(u) => encodable(u) && p.received == framed_str(u) + p.delivered,
    }
}

impl<S> ServerView<S> {
    pub open spec fn wf(self) -> bool {
        &&& self.accepted <= u64::MAX
        &&& forall|t: u64| #[trigger]
            self.peers.contains_key(t) ==> 1 <= t <= self.accepted && peer_consistent(
                self.peers[t],
            )
    }

    /// A token that was minted once and whose connection has been torn down.
    pub open spec fn retired(self, t: u64) -> bool {
        1 <= t <= self.accepted && !self.peers.contains_key(t)
    }
}

/// Whether a new connection is taken: in once mode only the first one, and
/// never once the tokens are used up.
pub open spec fn accepts<S>(v: ServerView<S>) -> bool {
    (!v.once || v.accepted == 0) && v.accepted < u64::MAX
}

pub open spec fn accept_result<S>(v: ServerView<S>) -> Option<u64> {
    if accepts(v) {
        Some((v.accepted + 1) as u64)
    } else {
        None
    }
}

pub open spec fn after_accept<S>(v: ServerView<S>, stream: S) -> ServerView<S> {
    if accepts(v) {
        ServerView {
            peers: v.peers.insert((v.accepted + 1) as u64, fresh_peer(stream)),
            accepted: v.accepted + 1,
            once: v.once,
        }
    } else {
        v
    }
}

/// Where the payload of a non-empty read starts: after the header on the
/// first read, at once afterwards.
pub open spec fn payload_start(user: Option<Seq<char>>, data: Seq<u8>) -> int {
    match user {
        None => frame_len(data),
        Some(_) => 0,
    }
}

pub open spec fn receive_result<S>(v: ServerView<S>, token: u64, data: Seq<u8>) -> Result<
    Received,
    ServerError,
> {
    if !v.peers.contains_key(token) {
        Err(ServerError::UnknownToken)
    } else if data.len() == 0 {
        Ok(Received::Closed)
    } else if v.peers[token].user is None && !holds_str_frame(data) {
        Err(ServerError::MalformedHeader)
    } else if payload_start(v.peers[token].user, data) < data.len() {
        Ok(Received::Payload { start: payload_start(v.peers[token].user, data) as usize })
    } else {
        Ok(Received::Header)
    }
}

/// What a read that was taken does to its peer.
pub open spec fn after_read<S>(p: PeerView<S>, data: Seq<u8>) -> PeerView<S> {
    PeerView {
        user: match p.user {
            None => Some(str_in_frame(data)),
            Some(u) => Some(u),
        },
        stream: p.stream,
        received: p.received + data,
        delivered: p.delivered + data.subrange(payload_start(p.user, data), data.len() as int),
    }
}

pub open spec fn after_receive<S>(v: ServerView<S>, token: u64, data: Seq<u8>) -> ServerView<S> {
    match receive_result(v, token, data) {
        Ok(Received::Header) | Ok(Received::Payload { .. }) => ServerView {
            peers: v.peers.insert(token, after_read(v.peers[token], data)),
            ..v
        },
        _ => v,
    }
}

pub open spec fn after_close<S>(v: ServerView<S>, token: u64) -> ServerView<S> {
    ServerView { peers: v.peers.remove(token), ..v }
}

/// Whether the server goes on after a connection is torn down.
pub open spec fn keeps_running<S>(v: ServerView<S>) -> bool {
    !v.once
}

/// A read that is taken keeps the user name and the payload handed on in
/// step with what the peer sent.
pub proof fn lemma_receive_keeps_wf<S>(v: ServerView<S>, token: u64, data: Seq<u8>)
    requires
        v.wf(),
    ensures
        after_receive(v, token, data).wf(),
{
    match receive_result(v, token, data) {
        Ok(Received::Header) | Ok(Received::Payload { .. }) => {
            let p = v.peers[token];
            let q = after_read(p, data);
            if p.user is None {
                lemma_frame_prefix(data);
                assert(data =~= data.subrange(0, frame_len(data)) + data.subrange(
                    frame_len(data),
                    data.len() as int,
                ));
                assert(q.received =~= framed_str(str_in_frame(data)) + q.delivered);
            } else {
                assert(data.subrange(0, data.len() as int) =~= data);
                assert(q.received =~= framed_str(p.user->Some_0) + q.delivered);
            }
            assert(peer_consistent(q));
        },
        _ => {},
    }
}

/// The tokens that the driver has registered are the listening socket's and
/// the keys of the connection map: no connection is keyed by `SERVER`,
/// `accept` adds exactly the token that the driver then registers, `close`
/// removes exactly the token whose stream the driver then deregisters, and
/// `receive` adds or removes none.
pub proof fn lemma_registrations_follow_map<S>(
    v: ServerView<S>,
    stream: S,
    token: u64,
    data: Seq<u8>,
)
    requires
        v.wf(),
    ensures
        !v.peers.contains_key(SERVER),
        match accept_result(v) {
            Some(t) => {
                &&& t != SERVER
                &&& !v.peers.contains_key(t)
                &&& after_accept(v, stream).peers.dom() == v.peers.dom().insert(t)
            },
            None => after_accept(v, stream) == v,
        },
        after_close(v, token).peers.dom() == v.peers.dom().remove(token),
        after_receive(v, token, data).peers.dom() == v.peers.dom(),
{
    assert(after_receive(v, token, data).peers.dom() =~= v.peers.dom());
    assert(after_close(v, token).peers.dom() =~= v.peers.dom().remove(token));
    if accepts(v) {
        let t = (v.accepted + 1) as u64;
        assert(after_accept(v, stream).peers.dom() =~= v.peers.dom().insert(t));
    }
}

/// A token whose connection was torn down is never served again: a read
/// handed in under it is refused, so no data is passed on under it, and it
/// stays retired whatever the server does next.
pub proof fn lemma_retired_token_stays_silent<S>(
    v: ServerView<S>,
    t: u64,
    stream: S,
    token: u64,
    data: Seq<u8>,
)
    requires
        v.wf(),
        v.retired(t),
    ensures
        receive_result(v, t, data) == Err::<Received, ServerError>(ServerError::UnknownToken),
        after_receive(v, token, data).retired(t),
        after_accept(v, stream).retired(t),
        after_close(v, token).retired(t),
{
}

/// Closing a live connection retires its token.
pub proof fn lemma_close_retires<S>(v: ServerView<S>, token: u64)
    requires
        v.wf(),
        v.peers.contains_key(token),
    ensures
        after_close(v, token).retired(token),
        after_close(v, token).wf(),
{
}

/// Tokens only grow and are never given twice: the token that `accept`
/// mints is above every token minted before it, including the retired
/// ones, and no operation lowers the counter.
pub proof fn lemma_tokens_fresh<S>(v: ServerView<S>, stream: S, token: u64, data: Seq<u8>)
    requires
        v.wf(),
    ensures
        accept_result(v) matches Some(t) ==> {
            &&& t == v.accepted + 1
            &&& forall|k: u64| #[trigger] v.peers.contains_key(k) || v.retired(k) ==> k < t
            &&& after_accept(v, stream).accepted == t
        },
        v.accepted <= after_accept(v, stream).accepted,
        after_receive(v, token, data).accepted == v.accepted,
        after_close(v, token).accepted == v.accepted,
        after_accept(v, stream).wf(),
{
}

/// Each read passes on at most one chunk, and the chunks passed on for a
/// connection are, in order, what its peer sent after the header: the
/// payload of a read is the read with its header part cut off, and what
/// the peer sent is always the header of its user name followed by all
/// payload passed on.
pub proof fn lemma_payload_is_stream_after_header<S>(v: ServerView<S>, token: u64, data: Seq<u8>)
    requires
        v.wf(),
        v.peers.contains_key(token),
        data.len() <= usize::MAX,
    ensures
        after_receive(v, token, data).wf(),
        after_receive(v, token, data).peers[token].user matches Some(u)
            ==> after_receive(v, token, data).peers[token].received == framed_str(u)
            + after_receive(v, token, data).peers[token].delivered,
        receive_result(v, token, data) matches Ok(Received::Payload { start }) ==> {
            &&& after_receive(v, token, data).peers[token].received == v.peers[token].received
                + data
            &&& after_receive(v, token, data).peers[token].delivered == v.peers[token].delivered
                + data.subrange(start as int, data.len() as int)
        },
        receive_result(v, token, data) == Ok::<Received, ServerError>(Received::Header) ==> {
            &&& after_receive(v, token, data).peers[token].received == v.peers[token].received
                + data
            &&& after_receive(v, token, data).peers[token].delivered == v.peers[token].delivered
        },
        receive_result(v, token, data) is Err || receive_result(v, token, data) == Ok::<
            Received,
            ServerError,
        >(Received::Closed) ==> after_receive(v, token, data) == v,
{
    lemma_receive_keeps_wf(v, token, data);
    let w = after_receive(v, token, data);
    let p = v.peers[token];
    assert(w.peers.contains_key(token));
    if receive_result(v, token, data) == Ok::<Received, ServerError>(Received::Header) {
        assert(data.subrange(payload_start(p.user, data), data.len() as int) =~= Seq::empty());
        assert(p.delivered + Seq::<u8>::empty() =~= p.delivered);
    }
}

/// A first read that holds the whole header of `name` and some payload
/// passes on exactly that payload, under `name`.
pub proof fn lemma_header_and_payload_in_one_read<S>(
    v: ServerView<S>,
    token: u64,
    name: Seq<char>,
    payload: Seq<u8>,
)
    requires
        v.wf(),
        v.peers.contains_key(token),
        v.peers[token].user is None,
        encodable(name),
        payload.len() > 0,
    ensures
        receive_result(v, token, framed_str(name) + payload) == Ok::<Received, ServerError>(
            Received::Payload { start: framed_str(name).len() as usize },
        ),
        after_receive(v, token, framed_str(name) + payload).peers[token].user == Some(name),
        after_receive(v, token, framed_str(name) + payload).peers[token].delivered == payload,
{
    let data = framed_str(name) + payload;
    lemma_header_round_trip(name, payload);
    assert(data.subrange(framed_str(name).len() as int, data.len() as int) =~= payload);
}

/// A peer that sends only its header and then closes has nothing passed on,
/// and its connection is torn down.
pub proof fn lemma_header_then_close<S>(v: ServerView<S>, token: u64, name: Seq<char>)
    requires
        v.wf(),
        v.peers.contains_key(token),
        v.peers[token].user is None,
        encodable(name),
    ensures
        ({
            let w = after_receive(v, token, framed_str(name));
            &&& receive_result(v, token, framed_str(name)) == Ok::<Received, ServerError>(
                Received::Header,
            )
            &&& w.peers[token].user == Some(name)
            &&& w.peers[token].delivered.len() == 0
            &&& receive_result(w, token, Seq::empty()) == Ok::<Received, ServerError>(
                Received::Closed,
            )
            &&& !after_close(w, token).peers.contains_key(token)
        }),
{
    lemma_header_round_trip(name, Seq::empty());
    assert(framed_str(name) + Seq::<u8>::empty() =~= framed_str(name));
}

/// In once mode the server takes no connection after its first, and tearing
/// that one down stops it.
pub proof fn lemma_once_stops_after_first_peer<S>(v: ServerView<S>, token: u64, stream: S)
    requires
        v.wf(),
        v.once,
        v.peers.contains_key(token),
    ensures
        accept_result(v) is None,
        after_accept(v, stream) == v,
        !keeps_running(v),
        !keeps_running(after_close(v, token)),
        accept_result(after_close(v, token)) is None,
{
}

struct Connection<S> {
    user: Option<String>,
    stream: S,
    received: Ghost<Seq<u8>>,
    delivered: Ghost<Seq<u8>>,
}

impl<S> Connection<S> {
    spec fn view(self) -> PeerView<S> {
        PeerView {
            user: match self.user {
                Some(u) => Some(u@),
                None => None,
            },
            stream: self.stream,
            received: self.received@,
            delivered: self.delivered@,
        }
    }
}

/// The connections of a fan-in server, keyed by token, and the counter that
/// mints tokens.
pub struct ServerState<S> {
    connections: HashMap<u64, Connection<S>>,
    accepted: u64,
    once: bool,
}

impl<S> View for ServerState<S> {
    type V = ServerView<S>;

    closed spec fn view(&self) -> ServerView<S> {
        ServerView {
            peers: self.connections@.map_values(|c: Connection<S>| c.view()),
            accepted: self.accepted as nat,
            once: self.once,
        }
    }
}

impl<S> ServerState<S> {
    pub open spec fn wf(&self) -> bool {
        self@.wf()
    }

    /// A server with no connections; with `once`, it takes a single one.
    pub fn new(once: bool) -> (r: Self)
        ensures
            r.wf(),
            r@.peers.is_empty(),
            r@.accepted == 0,
            r@.once == once,
    {
        let r = ServerState { connections: HashMap::new(), accepted: 0, once };
        assert(r@.peers =~= Map::empty());
        r
    }

    pub fn is_once(&self) -> (r: bool)
        ensures
            r == self@.once,
    {
        self.once
    }

    /// How many connections have been accepted so far.
    pub fn accepted(&self) -> (r: u64)
        ensures
            r == self@.accepted,
    {
        self.accepted
    }

    /// Takes a newly accepted stream. Returns the token to register it under,
    /// or `None` when it is refused, and then the stream is dropped.
    pub fn accept(&mut self, stream: S) -> (r: Option<u64>)
        requires
            old(self).wf(),
        ensures
            final(self).wf(),
            r == accept_result(old(self)@),
            final(self)@ == after_accept(old(self)@, stream),
    {
        if (!self.once || self.accepted == 0) && self.accepted < u64::MAX {
            self.accepted = self.accepted + 1;
            let token = self.accepted;
            let conn = Connection {
                user: None,
                stream,
                received: Ghost(Seq::empty()),
                delivered: Ghost(Seq::empty()),
            };
            self.connections.insert(token, conn);
            proof {
                assert(self@.peers =~= old(self)@.peers.insert(token, fresh_peer(stream)));
            }
            Some(token)
        } else {
            None
        }
    }

    /// The stream of a live connection.
    pub fn stream(&self, token: u64) -> (r: Option<&S>)
        ensures
            match r {
                Some(s) => self@.peers.contains_key(token) && *s == self@.peers[token].stream,
                None => !self@.peers.contains_key(token),
            },
    {
        match self.connections.get(&token) {
            Some(c) => Some(&c.stream),
            None => None,
        }
    }

    /// The user name of a live connection, once its header has been read.
    pub fn user(&self, token: u64) -> (r: Option<&String>)
        ensures
            match r {
                Some(u) => self@.peers.contains_key(token) && self@.peers[token].user == Some(u@),
                None => !self@.peers.contains_key(token) || self@.peers[token].user is None,
            },
    {
        match self.connections.get(&token) {
            Some(c) => match &c.user {
                Some(u) => Some(u),
                None => None,
            },
            None => None,
        }
    }

    /// Takes what one read of connection `token` returned.
    pub fn receive(&mut self, token: u64, data: &[u8]) -> (r: Result<Received, ServerError>)
        requires
            old(self).wf(),
        ensures
            final(self).wf(),
            r == receive_result(old(self)@, token, data@),
            final(self)@ == after_receive(old(self)@, token, data@),
    {
        let ghost v = self@;
        let conn = match self.connections.remove(&token) {
            Some(c) => c,
            None => {
                assert(self.connections@ =~= old(self).connections@);
                return Err(ServerError::UnknownToken);
            },
        };
        assert(self.connections@ == old(self).connections@.remove(token));
        assert(v.peers[token] == conn.view());
        if data.len() == 0 {
            self.connections.insert(token, conn);
            assert(self.connections@ =~= old(self).connections@);
            return Ok(Received::Closed);
        }
        let Connection { user, stream, received, delivered } = conn;
        let (name, start) = match user {
            Some(u) => (u, 0usize),
            None => match decode_header(data) {
                Ok((name, size)) => (name, size),
                Err(_) => {
                    let conn = Connection { user: None, stream, received, delivered };
                    self.connections.insert(token, conn);
                    assert(self.connections@ =~= old(self).connections@);
                    return Err(ServerError::MalformedHeader);
                },
            },
        };
        let ghost p = v.peers[token];
        proof {
            lemma_receive_keeps_wf(v, token, data@);
        }
        let conn = Connection {
            user: Some(name),
            stream,
            received: Ghost(received@ + data@),
            delivered: Ghost(delivered@ + data@.subrange(start as int, data@.len() as int)),
        };
        assert(conn.view() == after_read(p, data@));
        self.connections.insert(token, conn);
        assert(self@.peers =~= v.peers.insert(token, after_read(p, data@)));
        if start < data.len() {
            Ok(Received::Payload { start })
        } else {
            Ok(Received::Header)
        }
    }

    /// Takes connection `token` out of the server, closing it once the
    /// returned stream is dropped. In once mode the server is then done.
    pub fn close(&mut self, token: u64) -> (r: Option<Teardown<S>>)
        requires
            old(self).wf(),
        ensures
            final(self).wf(),
            final(self)@ == after_close(old(self)@, token),
            match r {
                Some(t) => {
                    &&& old(self)@.peers.contains_key(token)
                    &&& t.stream == old(self)@.peers[token].stream
                    &&& t.keep_running == keeps_running(old(self)@)
                },
                None => !old(self)@.peers.contains_key(token),
            },
    {
        let ghost v = self@;
        match self.connections.remove(&token) {
            Some(c) => {
                assert(self@.peers =~= v.peers.remove(token));
                Some(Teardown { stream: c.stream, keep_running: !self.once })
            },
            None => {
                assert(self@.peers =~= v.peers.remove(token));
                None
            },
        }
    }
}

} // verus!
