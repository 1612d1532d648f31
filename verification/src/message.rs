//! The rendezvous protocol's messages, as far as the server looks at them, and the orders that it
//! gives to the network layer.
//!
//! Socket addresses stand decoded here. The network layer mangles them on the way out.
use vstd::prelude::*;

use crate::addr::{Endpoint, EndpointView, SocketAddress};

verus! {

/// The texts of a list of strings.
pub open spec fn texts(v: Seq<String>) -> Seq<Seq<char>> {
    v.map_values(|s: String| s@)
}

/// A copy of a list of strings.
pub fn dup_texts(v: &Vec<String>) -> (r: Vec<String>)
    ensures
        texts(r@) == texts(v@),
{
    let mut r: Vec<String> = Vec::new();
    let mut i: usize = 0;
    while i < v.len()
        invariant
            i <= v.len(),
            r@.len() == i,
            forall|j: int| 0 <= j < i ==> (#[trigger] r@[j])@ == v@[j]@,
        decreases v.len() - i,
    {
        r.push(v[i].clone());
        i += 1;
    }
    assert(texts(r@) =~= texts(v@));
    r
}

/// A copy of some bytes.
pub fn dup_bytes(v: &Vec<u8>) -> (r: Vec<u8>)
    ensures
        r@ == v@,
{
    let mut r: Vec<u8> = Vec::new();
    let mut i: usize = 0;
    while i < v.len()
        invariant
            i <= v.len(),
            r@ == v@.take(i as int),
        decreases v.len() - i,
    {
        r.push(v[i]);
        i += 1;
        assert(r@ =~= v@.take(i as int));
    }
    assert(r@ =~= v@);
    r
}

/// Whether two byte strings are the same.
pub fn same_bytes(a: &Vec<u8>, b: &Vec<u8>) -> (r: bool)
    ensures
        r == (a@ == b@),
{
    if a.len() != b.len() {
        return false;
    }
    let mut i: usize = 0;
    while i < a.len()
        invariant
            i <= a.len(),
            a.len() == b.len(),
            forall|j: int| 0 <= j < i ==> a@[j] == b@[j],
        decreases a.len() - i,
    {
        if a[i] != b[i] {
            return false;
        }
        i += 1;
    }
    assert(a@ =~= b@);
    true
}

// What comes in.

/// A heartbeat: the peer `id` is here.
pub struct RegisterPeer {
    pub id: String,
    pub serial: i32,
}

/// A peer presents its public key.
pub struct RegisterPk {
    pub id: String,
    pub uuid: Vec<u8>,
    pub pk: Vec<u8>,
}

/// A peer asks to be connected to the peer `id`.
pub struct PunchHoleRequest {
    pub id: String,
    pub nat_type: i32,
    pub licence_key: String,
    pub token: String,
}

/// A peer has punched its hole, and is ready for the peer at `to`.
pub struct PunchHoleSent {
    pub to: Endpoint,
    pub id: String,
    pub relay_server: String,
    /// The NAT type, where it is one that the protocol knows.
    pub nat_type: Option<i32>,
    pub version: String,
}

/// A peer tells its local addresses to the peer at `to`.
pub struct LocalAddr {
    pub to: Endpoint,
    pub local_addr: Vec<u8>,
    pub relay_server: String,
    pub id: String,
    pub version: String,
}

/// A newer list of rendezvous servers.
pub struct ConfigureUpdate {
    pub serial: i32,
    pub rendezvous_servers: Vec<String>,
}

/// A peer asks whether there is newer software.
pub struct SoftwareUpdate {
    pub url: String,
}

/// A peer asks the peer `id` to meet it at a relay.
pub struct RequestRelay {
    pub id: String,
    /// All else that it says, but for an address, in a form that is not looked into.
    pub rest: Vec<u8>,
}

/// The answer to a relay request, for the peer at `to`.
pub struct RelayResponse {
    pub to: Endpoint,
    pub id: String,
    pub version: String,
    pub relay_server: String,
    /// All else that it says, in a form that is not looked into: with the id, or with the public
    /// key that it has in the id's place.
    pub rest: Vec<u8>,
}

/// A peer asks how its address looks from here.
pub struct TestNatRequest {
    pub serial: i32,
}

/// The second half of a key exchange: the peer's public key, and the symmetric key sealed to ours.
pub struct KeyExchange {
    pub keys: Vec<Vec<u8>>,
}

/// A peer asks which of `peers` are online.
pub struct OnlineRequest {
    pub peers: Vec<String>,
}

/// A message from a peer. `Other` is one that the server has no use for, or could not read.
pub enum Incoming {
    RegisterPeer(RegisterPeer),
    RegisterPk(RegisterPk),
    PunchHoleRequest(PunchHoleRequest),
    PunchHoleSent(PunchHoleSent),
    LocalAddr(LocalAddr),
    ConfigureUpdate(ConfigureUpdate),
    SoftwareUpdate(SoftwareUpdate),
    RequestRelay(RequestRelay),
    RelayResponse(RelayResponse),
    TestNatRequest(TestNatRequest),
    KeyExchange(KeyExchange),
    OnlineRequest(OnlineRequest),
    Other,
}

// What goes out.

/// How a key registration was answered.
#[derive(Clone, Copy, Debug, PartialEq, Eq, Structural)]
pub enum RegisterPkResult {
    Accepted,
    UuidMismatch,
    TooFrequent,
}

/// Why a hole was not punched.
#[derive(Clone, Copy, Debug, PartialEq, Eq, Structural)]
pub enum PunchFailure {
    /// Nothing is said.
    Unset,
    IdNotExist,
    Offline,
    LicenseMismatch,
}

/// The NAT type that a peer is told of: the requester's own, or the one that makes both sides
/// use a relay.
#[derive(Clone, Copy, Debug, PartialEq, Eq, Structural)]
pub enum NatType {
    Given(i32),
    Symmetric,
}

/// The part of a punch hole response that holds either a NAT type or whether the address is local.
#[derive(Clone, Copy, Debug, PartialEq, Eq, Structural)]
pub enum PunchUnion {
    Unset,
    NatType(i32),
    IsLocal(bool),
}

/// The address in a punch hole response: none, one to be mangled, or bytes that a peer sent.
#[derive(Debug)]
pub enum ResponseAddr {
    Empty,
    Of(SocketAddress),
    Raw(Vec<u8>),
}

pub enum ResponseAddrView {
    Empty,
    Of(SocketAddress),
    Raw(Seq<u8>),
}

impl View for ResponseAddr {
    type V = ResponseAddrView;

    open spec fn view(&self) -> ResponseAddrView {
        match self {
            ResponseAddr::Empty => ResponseAddrView::Empty,
            ResponseAddr::Of(a) => ResponseAddrView::Of(*a),
            ResponseAddr::Raw(b) => ResponseAddrView::Raw(b@),
        }
    }
}

/// A peer's id and public key, which go out together under the server's signature.
#[derive(Debug)]
pub struct IdPk {
    pub id: String,
    pub pk: Vec<u8>,
}

pub struct IdPkView {
    pub id: Seq<char>,
    pub pk: Seq<u8>,
}

impl View for IdPk {
    type V = IdPkView;

    open spec fn view(&self) -> IdPkView {
        IdPkView { id: self.id@, pk: self.pk@ }
    }
}

/// The view of an optional value.
pub open spec fn opt_view<T: View>(o: Option<T>) -> Option<T::V> {
    match o {
        Some(x) => Some(x@),
        None => None,
    }
}

/// The answer to a punch hole request.
#[derive(Debug)]
pub struct PunchHoleResponse {
    pub socket_addr: ResponseAddr,
    pub pk: Option<IdPk>,
    pub failure: PunchFailure,
    pub union: PunchUnion,
    pub relay_server: String,
    pub other_failure: String,
}

pub struct PunchHoleResponseView {
    pub socket_addr: ResponseAddrView,
    pub pk: Option<IdPkView>,
    pub failure: PunchFailure,
    pub union: PunchUnion,
    pub relay_server: Seq<char>,
    pub other_failure: Seq<char>,
}

impl View for PunchHoleResponse {
    type V = PunchHoleResponseView;

    open spec fn view(&self) -> PunchHoleResponseView {
        PunchHoleResponseView {
            socket_addr: self.socket_addr@,
            pk: opt_view(self.pk),
            failure: self.failure,
            union: self.union,
            relay_server: self.relay_server@,
            other_failure: self.other_failure@,
        }
    }
}

/// The current serial, and the list of rendezvous servers that goes with it.
#[derive(Debug)]
pub struct ConfigUpdate {
    pub serial: i32,
    pub rendezvous_servers: Vec<String>,
}

pub struct ConfigUpdateView {
    pub serial: i32,
    pub rendezvous_servers: Seq<Seq<char>>,
}

impl View for ConfigUpdate {
    type V = ConfigUpdateView;

    open spec fn view(&self) -> ConfigUpdateView {
        ConfigUpdateView {
            serial: self.serial,
            rendezvous_servers: texts(self.rendezvous_servers@),
        }
    }
}

/// A message to a peer.
#[derive(Debug)]
#[allow(inconsistent_fields)]
pub enum Outgoing {
    RegisterPeerResponse { request_pk: bool },
    ConfigureUpdate(ConfigUpdate),
    RegisterPkResponse { result: RegisterPkResult },
    PunchHoleResponse(PunchHoleResponse),
    FetchLocalAddr { socket_addr: SocketAddress, relay_server: String },
    PunchHole { socket_addr: SocketAddress, nat_type: NatType, relay_server: String },
    /// A relay request, with the requester's address.
    RequestRelay { id: String, socket_addr: SocketAddress, rest: Vec<u8> },
    /// A relay response. The id or public key is the one in `rest` (`None`), or else a public key
    /// in its place, which is empty or a signed one.
    RelayResponse {
        socket_addr: ResponseAddr,
        pk: Option<Option<IdPk>>,
        version: String,
        relay_server: String,
        rest: Vec<u8>,
    },
    TestNatResponse { port: u16, cu: Option<ConfigUpdate> },
    OnlineResponse { states: Vec<u8> },
    KeyExchange { keys: Vec<Vec<u8>> },
    SoftwareUpdate { url: String },
}

#[allow(inconsistent_fields)]
pub enum OutgoingView {
    RegisterPeerResponse { request_pk: bool },
    ConfigureUpdate(ConfigUpdateView),
    RegisterPkResponse { result: RegisterPkResult },
    PunchHoleResponse(PunchHoleResponseView),
    FetchLocalAddr { socket_addr: SocketAddress, relay_server: Seq<char> },
    PunchHole { socket_addr: SocketAddress, nat_type: NatType, relay_server: Seq<char> },
    RequestRelay { id: Seq<char>, socket_addr: SocketAddress, rest: Seq<u8> },
    RelayResponse {
        socket_addr: ResponseAddrView,
        pk: Option<Option<IdPkView>>,
        version: Seq<char>,
        relay_server: Seq<char>,
        rest: Seq<u8>,
    },
    TestNatResponse { port: u16, cu: Option<ConfigUpdateView> },
    OnlineResponse { states: Seq<u8> },
    KeyExchange { keys: Seq<Seq<u8>> },
    SoftwareUpdate { url: Seq<char> },
}

impl View for Outgoing {
    type V = OutgoingView;

    open spec fn view(&self) -> OutgoingView {
        match self {
            Outgoing::RegisterPeerResponse { request_pk } =>
                OutgoingView::RegisterPeerResponse { request_pk: *request_pk },
            Outgoing::ConfigureUpdate(cu) => OutgoingView::ConfigureUpdate(cu@),
            Outgoing::RegisterPkResponse { result } =>
                OutgoingView::RegisterPkResponse { result: *result },
            Outgoing::PunchHoleResponse(r) => OutgoingView::PunchHoleResponse(r@),
            Outgoing::FetchLocalAddr { socket_addr, relay_server } =>
                OutgoingView::FetchLocalAddr {
                    socket_addr: *socket_addr,
                    relay_server: relay_server@,
                },
            Outgoing::PunchHole { socket_addr, nat_type, relay_server } =>
                OutgoingView::PunchHole {
                    socket_addr: *socket_addr,
                    nat_type: *nat_type,
                    relay_server: relay_server@,
                },
            Outgoing::RequestRelay { id, socket_addr, rest } =>
                OutgoingView::RequestRelay { id: id@, socket_addr: *socket_addr, rest: rest@ },
            Outgoing::RelayResponse { socket_addr, pk, version, relay_server, rest } =>
                OutgoingView::RelayResponse {
                    socket_addr: socket_addr@,
                    pk: match pk {
                        Some(p) => Some(opt_view(*p)),
                        None => None,
                    },
                    version: version@,
                    relay_server: relay_server@,
                    rest: rest@,
                },
            Outgoing::TestNatResponse { port, cu } =>
                OutgoingView::TestNatResponse { port: *port, cu: opt_view(*cu) },
            Outgoing::OnlineResponse { states } =>
                OutgoingView::OnlineResponse { states: states@ },
            Outgoing::KeyExchange { keys } =>
                OutgoingView::KeyExchange { keys: keys@.map_values(|k: Vec<u8>| k@) },
            Outgoing::SoftwareUpdate { url } => OutgoingView::SoftwareUpdate { url: url@ },
        }
    }
}

/// An order to the network layer.
#[derive(Debug)]
#[allow(inconsistent_fields)]
pub enum Action {
    /// Put this connection's write half aside under its address. The one of connection `replaced`,
    /// which was there, is dropped.
    Park { replaced: Option<u64> },
    /// Write to this connection.
    Reply(Outgoing),
    /// Send to a registered peer: over its websocket, or else as a datagram.
    ToPeer { to: Endpoint, msg: Outgoing },
    /// Send to a peer that asked earlier: over its websocket, or else over the connection that was
    /// put aside for it.
    ToTcp { to: Endpoint, msg: Outgoing },
    /// Send a datagram.
    Udp { to: SocketAddress, msg: Outgoing },
    /// Write a peer's record to the store.
    Store { id: String, uuid: Vec<u8>, pk: Vec<u8>, ip: String },
    /// Find out which of these servers are real, and report them under this serial.
    CheckServers { serial: i32, servers: Vec<String> },
}

#[allow(inconsistent_fields)]
pub enum ActionView {
    Park { replaced: Option<u64> },
    Reply(OutgoingView),
    ToPeer { to: EndpointView, msg: OutgoingView },
    ToTcp { to: EndpointView, msg: OutgoingView },
    Udp { to: SocketAddress, msg: OutgoingView },
    Store { id: Seq<char>, uuid: Seq<u8>, pk: Seq<u8>, ip: Seq<char> },
    CheckServers { serial: i32, servers: Seq<Seq<char>> },
}

impl View for Action {
    type V = ActionView;

    open spec fn view(&self) -> ActionView {
        match self {
            Action::Park { replaced } => ActionView::Park { replaced: *replaced },
            Action::Reply(m) => ActionView::Reply(m@),
            Action::ToPeer { to, msg } => ActionView::ToPeer { to: to@, msg: msg@ },
            Action::ToTcp { to, msg } => ActionView::ToTcp { to: to@, msg: msg@ },
            Action::Udp { to, msg } => ActionView::Udp { to: *to, msg: msg@ },
            Action::Store { id, uuid, pk, ip } =>
                ActionView::Store { id: id@, uuid: uuid@, pk: pk@, ip: ip@ },
            Action::CheckServers { serial, servers } =>
                ActionView::CheckServers { serial: *serial, servers: texts(servers@) },
        }
    }
}

/// The orders in a list.
pub open spec fn orders(v: Seq<Action>) -> Seq<ActionView> {
    v.map_values(|a: Action| a@)
}

/// Adding an order to a list adds it to what the list says.
pub broadcast proof fn lemma_orders_push(v: Seq<Action>, a: Action)
    ensures
        #[trigger] orders(v.push(a)) == orders(v).push(a@),
{
    assert(orders(v.push(a)) =~= orders(v).push(a@));
}

} // verus!
