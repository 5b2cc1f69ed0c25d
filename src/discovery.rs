//! The multicast discovery protocol. A querier sends one byte to the group;
//! each listener answers with its advertisement, unicast, until one send
//! goes through; the querier collects at most `DISCOVER_MAX` replies and
//! pairs each advertised port with the address the reply came from.

use vstd::prelude::*;

use crate::codec::{
    deserialize_info, framed_info, holds_info, port_in_info, serialize_info, str_in_frame,
    DecodeError,
};
use crate::io_kind::IoKind;

verus! {

/// Most replies that one query collects.
pub const DISCOVER_MAX: usize = 100;

/// Size of the buffer that a reply is read into.
pub const REPLY_BUFFER_SIZE: usize = 256;

/// An IPv4 socket address: the address as a big-endian number, and a port.
#[derive(Debug, PartialEq, Eq, Clone, Copy, Structural)]
pub struct PeerAddr {
    pub ip: u32,
    pub port: u16,
}

/// A listener's advertisement: its user name and the TCP port it takes
/// connections on.
pub struct DiscoveryInfo {
    pub name: String,
    pub port: u16,
}

impl DiscoveryInfo {
    /// The advertisement as sent in a reply datagram.
    pub fn encode(&self) -> (r: Vec<u8>)
        ensures
            r@ == framed_info(self.name@, self.port),
    {
        serialize_info(self.name.as_str(), self.port).unwrap()
    }

    /// Reads an advertisement from the start of a reply datagram.
    pub fn decode(bytes: &[u8]) -> (r: Result<DiscoveryInfo, DecodeError>)
        ensures
            r is Ok <==> holds_info(bytes@),
            r matches Ok(info) ==> info.name@ == str_in_frame(bytes@) && info.port
                == port_in_info(bytes@),
    {
        match deserialize_info(bytes) {
            Ok((name, port)) => Ok(DiscoveryInfo { name, port }),
            Err(_) => Err(DecodeError::Malformed),
        }
    }
}

/// A listener found by a query, as the contracts see it.
pub ghost struct EndpointView {
    pub name: Seq<char>,
    pub addr: PeerAddr,
}

/// A listener found by a query: the advertised name, and the address of the
/// reply with the advertised port.
#[derive(Debug, Clone)]
pub struct EndpointInfo {
    pub name: String,
    pub addr: PeerAddr,
}

impl View for EndpointInfo {
    type V = EndpointView;

    open spec fn view(&self) -> EndpointView {
        EndpointView { name: self.name@, addr: self.addr }
    }
}

impl PartialEq for EndpointInfo {
    fn eq(&self, other: &EndpointInfo) -> (r: bool) {
        self.name == other.name && self.addr == other.addr
    }
}

impl vstd::std_specs::cmp::PartialEqSpecImpl for EndpointInfo {
    open spec fn obeys_eq_spec() -> bool {
        true
    }

    open spec fn eq_spec(&self, other: &EndpointInfo) -> bool {
        self@ == other@
    }
}

/// The endpoint that a reply holding `datagram` from `source_ip` names.
pub open spec fn reply_endpoint(datagram: Seq<u8>, source_ip: u32) -> EndpointView {
    EndpointView {
        name: str_in_frame(datagram),
        addr: PeerAddr { ip: source_ip, port: port_in_info(datagram) },
    }
}

/// Reads the endpoint out of a reply that came from `source_ip`.
pub fn endpoint_from_reply(datagram: &[u8], source_ip: u32) -> (r: Result<
    EndpointInfo,
    DecodeError,
>)
    ensures
        r is Ok <==> holds_info(datagram@),
        r matches Ok(e) ==> e@ == reply_endpoint(datagram@, source_ip),
{
    let info = DiscoveryInfo::decode(datagram)?;
    Ok(EndpointInfo { name: info.name, addr: PeerAddr { ip: source_ip, port: info.port } })
}

/// The replies collected for one query, in the order they came.
pub struct Discovery {
    endpoints: Vec<EndpointInfo>,
}

impl View for Discovery {
    type V = Seq<EndpointView>;

    closed spec fn view(&self) -> Seq<EndpointView> {
        self.endpoints@.map_values(|e: EndpointInfo| e@)
    }
}

impl Discovery {
    pub open spec fn wf(&self) -> bool {
        self@.len() <= DISCOVER_MAX
    }

    pub fn new() -> (r: Discovery)
        ensures
            r.wf(),
            r@ == Seq::<EndpointView>::empty(),
    {
        let r = Discovery { endpoints: Vec::new() };
        assert(r@ =~= Seq::<EndpointView>::empty());
        r
    }

    /// Whether another reply is to be read.
    pub fn wants_more(&self) -> (r: bool)
        ensures
            r == (self@.len() < DISCOVER_MAX),
    {
        self.endpoints.len() < DISCOVER_MAX
    }

    /// Records the reply `datagram` that came from `source_ip`.
    pub fn on_reply(&mut self, datagram: &[u8], source_ip: u32) -> (r: Result<
        (),
        DecodeError,
    >)
        requires
            old(self)@.len() < DISCOVER_MAX,
        ensures
            final(self).wf(),
            r is Ok <==> holds_info(datagram@),
            r is Ok ==> final(self)@ == old(self)@.push(reply_endpoint(datagram@, source_ip)),
            r is Err ==> final(self)@ == old(self)@,
    {
        let endpoint = endpoint_from_reply(datagram, source_ip)?;
        self.endpoints.push(endpoint);
        assert(self@ =~= old(self)@.push(reply_endpoint(datagram@, source_ip)));
        Ok(())
    }

    /// The endpoints collected, in the order their replies came.
    pub fn into_endpoints(self) -> (r: Vec<EndpointInfo>)
        ensures
            r@.len() == self@.len(),
            forall|i: int| 0 <= i < r@.len() ==> #[trigger] r@[i]@ == self@[i],
    {
        self.endpoints
    }
}

/// What the reply loop does after one send of the advertisement.
#[derive(Debug, PartialEq, Eq, Clone, Copy, Structural)]
pub enum ReplyStep {
    /// The reply went out: the query is answered.
    Done,
    /// Transient refusal: send again.
    Retry,
    /// Any other failure ends the tick with an error.
    Fatal,
}

pub open spec fn reply_step_of(sent: Result<(), IoKind>) -> ReplyStep {
    match sent {
        Ok(()) => ReplyStep::Done,
        Err(IoKind::PermissionDenied) => ReplyStep::Retry,
        Err(_) => ReplyStep::Fatal,
    }
}

/// Decides what follows one attempt to send the advertisement.
pub fn reply_step(sent: Result<(), IoKind>) -> (r: ReplyStep)
    ensures
        r == reply_step_of(sent),
{
    match sent {
        Ok(()) => ReplyStep::Done,
        Err(IoKind::PermissionDenied) => ReplyStep::Retry,
        Err(_) => ReplyStep::Fatal,
    }
}

/// The send results that a reply loop sees when it answers a query: each
/// attempt but the last is retried, and the last ends the loop.
pub open spec fn finished_reply_run(sends: Seq<Result<(), IoKind>>) -> bool {
    &&& sends.len() > 0
    &&& forall|i: int| 0 <= i < sends.len() - 1 ==> reply_step_of(#[trigger] sends[i])
        == ReplyStep::Retry
    &&& reply_step_of(sends.last()) != ReplyStep::Retry
}

/// How many of the sends went out.
pub open spec fn replies_sent(sends: Seq<Result<(), IoKind>>) -> nat
    decreases sends.len(),
{
    if sends.len() == 0 {
        0
    } else {
        replies_sent(sends.drop_last()) + if sends.last() is Ok {
            1nat
        } else {
            0nat
        }
    }
}

/// A query that the reply loop answers without a fatal error gets exactly
/// one reply.
pub proof fn lemma_one_reply_per_query(sends: Seq<Result<(), IoKind>>)
    requires
        finished_reply_run(sends),
        reply_step_of(sends.last()) != ReplyStep::Fatal,
    ensures
        replies_sent(sends) == 1,
{
    lemma_retries_send_nothing(sends.drop_last());
}

proof fn lemma_retries_send_nothing(sends: Seq<Result<(), IoKind>>)
    requires
        forall|i: int| 0 <= i < sends.len() ==> reply_step_of(#[trigger] sends[i])
            == ReplyStep::Retry,
    ensures
        replies_sent(sends) == 0,
    decreases sends.len(),
{
    if sends.len() > 0 {
        let rest = sends.drop_last();
        assert forall|i: int| 0 <= i < rest.len() implies reply_step_of(#[trigger] rest[i])
            == ReplyStep::Retry by {
            assert(rest[i] == sends[i]);
        }
        lemma_retries_send_nothing(rest);
        assert(reply_step_of(sends[sends.len() - 1]) == ReplyStep::Retry);
    }
}

} // verus!
