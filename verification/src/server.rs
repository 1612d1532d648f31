//! The server's own settings: who it is, which servers it tells of, and what it signs.
use vstd::prelude::*;

use crate::addr::{Network, SocketAddress};
use crate::keys::{opt_bytes, sign, signed_message, SECRETKEYBYTES, SIGNATUREBYTES};
use crate::message::{
    dup_bytes, dup_texts, opt_view, texts, ConfigUpdate, ConfigUpdateView, IdPk, IdPkView, Outgoing,
    OutgoingView,
};
use crate::peer::{PeerMap, PeerView};

verus! {

/// Settings that rarely change.
pub struct Inner {
    pub serial: i32,
    pub version: String,
    pub software_url: String,
    pub mask: Option<Network>,
    pub local_ip: String,
    pub sk: Option<Vec<u8>>,
    /// The public half of a key pair that is made anew at every start, and only used to wrap the
    /// symmetric key of an encrypted connection.
    pub secure_tcp_pk_b: Vec<u8>,
}

/// The server as one connection sees it. Each connection has its own copy, taken when it was
/// accepted.
pub struct RendezvousServer {
    /// The relay servers that answered when they were last tried.
    pub relay_servers: Vec<String>,
    /// All relay servers.
    pub relay_servers0: Vec<String>,
    pub rendezvous_servers: Vec<String>,
    pub inner: Inner,
}

#[verifier::ext_equal]
pub struct ServerView {
    pub relay_servers: Seq<Seq<char>>,
    pub relay_servers0: Seq<Seq<char>>,
    pub rendezvous_servers: Seq<Seq<char>>,
    pub serial: i32,
    pub version: Seq<char>,
    pub software_url: Seq<char>,
    pub mask: Option<Network>,
    pub local_ip: Seq<char>,
    pub sk: Option<Seq<u8>>,
    pub secure_tcp_pk_b: Seq<u8>,
}

impl View for RendezvousServer {
    type V = ServerView;

    open spec fn view(&self) -> ServerView {
        ServerView {
            relay_servers: texts(self.relay_servers@),
            relay_servers0: texts(self.relay_servers0@),
            rendezvous_servers: texts(self.rendezvous_servers@),
            serial: self.inner.serial,
            version: self.inner.version@,
            software_url: self.inner.software_url@,
            mask: self.inner.mask,
            local_ip: self.inner.local_ip@,
            sk: opt_bytes(self.inner.sk),
            secure_tcp_pk_b: self.inner.secure_tcp_pk_b@,
        }
    }
}

impl ServerView {
    /// The secret key is one, and the mask is one.
    pub open spec fn wf(self) -> bool {
        &&& self.sk matches Some(sk) ==> sk.len() == SECRETKEYBYTES
        &&& self.mask matches Some(n) ==> n.wf()
    }

    /// The address belongs to the local network.
    pub open spec fn is_lan(self, addr: SocketAddress) -> bool {
        match self.mask {
            Some(network) => network.spec_contains(addr.spec_ip()),
            None => false,
        }
    }

    /// The server after these relay servers answered.
    pub open spec fn with_answers(self, answered: Seq<Seq<char>>) -> ServerView {
        if answered.len() > 0 {
            ServerView { relay_servers: answered, ..self }
        } else {
            self
        }
    }

    /// The server with a new list of relay servers.
    pub open spec fn with_relays(self, servers: Seq<Seq<char>>) -> ServerView {
        ServerView { relay_servers: servers, relay_servers0: servers, ..self }
    }

    /// The server with a new serial and a new list of rendezvous servers.
    pub open spec fn configured(self, serial: i32, servers: Seq<Seq<char>>) -> ServerView {
        ServerView { serial, rendezvous_servers: servers, ..self }
    }

    /// What a peer is told of that has an older list of servers than ours.
    pub open spec fn config_update(self) -> ConfigUpdateView {
        ConfigUpdateView { serial: self.serial, rendezvous_servers: self.rendezvous_servers }
    }

    /// The id and public key that the server vouches for, where it is asked by a client that says
    /// its version, has a key to vouch with, and knows the peer.
    pub open spec fn get_pk(
        self,
        peers: Map<Seq<char>, PeerView>,
        version: Seq<char>,
        id: Seq<char>,
    ) -> Option<IdPkView> {
        if version.len() == 0 || self.sk is None || !peers.contains_key(id) {
            None
        } else {
            Some(IdPkView { id, pk: peers[id].pk })
        }
    }

    /// The peer that has to be looked up for [`Self::get_pk`] and is not in memory.
    pub open spec fn get_pk_needs(
        self,
        peers: Map<Seq<char>, PeerView>,
        version: Seq<char>,
        id: Seq<char>,
    ) -> Option<Seq<char>> {
        if version.len() == 0 || self.sk is None || peers.contains_key(id) {
            None
        } else {
            Some(id)
        }
    }

    /// The first message of a key exchange: the public key of this start, signed with the server's
    /// own key, where it has one.
    pub open spec fn first_key(self) -> Option<OutgoingView> {
        match self.sk {
            Some(sk) => Some(
                OutgoingView::KeyExchange { keys: seq![signed_message(self.secure_tcp_pk_b, sk)] },
            ),
            None => None,
        }
    }
}

/// Those of `servers` for which `valid` says so.
pub open spec fn valid_servers(servers: Seq<Seq<char>>, valid: Seq<bool>) -> Seq<Seq<char>>
    decreases servers.len(),
{
    if servers.len() == 0 {
        Seq::empty()
    } else {
        let front = valid_servers(servers.drop_last(), valid);
        if valid[servers.len() - 1] {
            front.push(servers.last())
        } else {
            front
        }
    }
}

impl RendezvousServer {
    pub open spec fn wf(&self) -> bool {
        self@.wf()
    }

    /// The server at its start. A local address is only kept where there is a local network.
    pub fn new(
        serial: i32,
        version: String,
        software_url: String,
        mask: Option<Network>,
        local_ip: String,
        sk: Option<Vec<u8>>,
        secure_tcp_pk_b: Vec<u8>,
        rendezvous_servers: Vec<String>,
        relay_servers: Vec<String>,
    ) -> (r: RendezvousServer)
        requires
            sk matches Some(k) ==> k@.len() == SECRETKEYBYTES,
            mask matches Some(n) ==> n.wf(),
        ensures
            r.wf(),
            r@ == (ServerView {
                relay_servers: texts(relay_servers@),
                relay_servers0: texts(relay_servers@),
                rendezvous_servers: texts(rendezvous_servers@),
                serial,
                version: version@,
                software_url: software_url@,
                mask,
                local_ip: if mask is None {
                    Seq::empty()
                } else {
                    local_ip@
                },
                sk: opt_bytes(sk),
                secure_tcp_pk_b: secure_tcp_pk_b@,
            }),
            mask is None ==> r@.local_ip.len() == 0,
    {
        let local_ip = if mask.is_none() {
            String::new()
        } else {
            local_ip
        };
        RendezvousServer {
            relay_servers: dup_texts(&relay_servers),
            relay_servers0: relay_servers,
            rendezvous_servers,
            inner: Inner { serial, version, software_url, mask, local_ip, sk, secure_tcp_pk_b },
        }
    }

    /// A copy, for a connection that was just accepted.
    pub fn dup(&self) -> (r: RendezvousServer)
        ensures
            r@ == self@,
    {
        RendezvousServer {
            relay_servers: dup_texts(&self.relay_servers),
            relay_servers0: dup_texts(&self.relay_servers0),
            rendezvous_servers: dup_texts(&self.rendezvous_servers),
            inner: Inner {
                serial: self.inner.serial,
                version: self.inner.version.clone(),
                software_url: self.inner.software_url.clone(),
                mask: self.inner.mask,
                local_ip: self.inner.local_ip.clone(),
                sk: match &self.inner.sk {
                    Some(sk) => Some(dup_bytes(sk)),
                    None => None,
                },
                secure_tcp_pk_b: dup_bytes(&self.inner.secure_tcp_pk_b),
            },
        }
    }

    /// Takes a new list of relay servers, none of which has been tried yet.
    pub fn parse_relay_servers(&mut self, servers: Vec<String>)
        ensures
            final(self)@ == old(self)@.with_relays(texts(servers@)),
    {
        self.relay_servers = dup_texts(&servers);
        self.relay_servers0 = servers;
    }

    /// Keeps to the relay servers that answered; to the former ones where none did.
    pub fn relays_checked(&mut self, answered: Vec<String>)
        ensures
            final(self)@ == old(self)@.with_answers(texts(answered@)),
    {
        if answered.len() > 0 {
            self.relay_servers = answered;
        }
    }

    /// Takes a new serial, and those of the new rendezvous servers that are real.
    pub fn configure(&mut self, serial: i32, servers: Vec<String>, valid: Vec<bool>)
        requires
            servers@.len() == valid@.len(),
        ensures
            final(self)@ == old(self)@.configured(serial, valid_servers(texts(servers@), valid@)),
    {
        let mut kept: Vec<String> = Vec::new();
        let mut i: usize = 0;
        let ghost all = texts(servers@);
        assert(texts(kept@) =~= valid_servers(all.take(0), valid@));
        while i < servers.len()
            invariant
                i <= servers@.len(),
                servers@.len() == valid@.len(),
                all == texts(servers@),
                texts(kept@) == valid_servers(all.take(i as int), valid@),
            decreases servers@.len() - i,
        {
            let ghost before = texts(kept@);
            assert(all.take(i + 1).drop_last() =~= all.take(i as int));
            if valid[i] {
                kept.push(servers[i].clone());
                assert(texts(kept@) =~= before.push(all[i as int]));
            }
            i += 1;
        }
        assert(all.take(i as int) =~= all);
        self.inner.serial = serial;
        self.rendezvous_servers = kept;
    }

    /// Whether an address belongs to the local network.
    pub fn is_lan(&self, addr: SocketAddress) -> (r: bool)
        requires
            self.wf(),
        ensures
            r == self@.is_lan(addr),
    {
        match &self.inner.mask {
            Some(network) => network.contains(addr.ip()),
            None => false,
        }
    }

    /// What a peer is told of that has an older list of servers than ours.
    pub fn config_update(&self) -> (r: ConfigUpdate)
        ensures
            r@ == self@.config_update(),
    {
        ConfigUpdate {
            serial: self.inner.serial,
            rendezvous_servers: dup_texts(&self.rendezvous_servers),
        }
    }

    /// The id and public key that the server vouches for.
    pub fn get_pk(&self, peers: &PeerMap, version: &String, id: &String) -> (r: Option<IdPk>)
        requires
            peers.wf(),
        ensures
            opt_view(r) == self@.get_pk(peers@, version@, id@),
    {
        if version.as_str().is_empty() || self.inner.sk.is_none() {
            return None;
        }
        match peers.get(id.as_str()) {
            Some(p) => Some(IdPk { id: id.clone(), pk: dup_bytes(&p.pk) }),
            None => None,
        }
    }

    /// The signed form of a message; nothing where the server has no key.
    pub fn sign(&self, message: &Vec<u8>) -> (r: Vec<u8>)
        requires
            self.wf(),
        ensures
            match self@.sk {
                Some(sk) => r@ == signed_message(message@, sk) && r@.len() == SIGNATUREBYTES
                    + message@.len() && r@.skip(SIGNATUREBYTES as int) == message@,
                None => r@.len() == 0,
            },
    {
        match &self.inner.sk {
            Some(sk) => sign(message, sk),
            None => Vec::new(),
        }
    }

    /// The first message of a key exchange, so that the peer can tell that the key is ours.
    pub fn key_exchange_phase1(&self) -> (r: Option<Outgoing>)
        requires
            self.wf(),
        ensures
            opt_view(r) == self@.first_key(),
            r matches Some(Outgoing::KeyExchange { keys }) ==> keys@.len() == 1 && keys@[0]@.skip(
                SIGNATUREBYTES as int,
            ) == self@.secure_tcp_pk_b,
    {
        match &self.inner.sk {
            Some(sk) => {
                let mut keys: Vec<Vec<u8>> = Vec::new();
                keys.push(sign(&self.inner.secure_tcp_pk_b, sk));
                let m = Outgoing::KeyExchange { keys };
                assert(m@->keys =~= self@.first_key()->0->keys);
                Some(m)
            },
            None => None,
        }
    }
}

/// The local network is the one that the mask names; without a mask there is none.
pub proof fn law_local_network_is_the_masks(srv: ServerView, addr: SocketAddress)
    ensures
        srv.mask is None ==> !srv.is_lan(addr),
        srv.mask matches Some(n) ==> srv.is_lan(addr) == n.spec_contains(addr.spec_ip()),
{
}

/// The server vouches for the key that is on record for a peer, under that peer's id, and for no
/// other; and for none without a secret key, or to a client that does not say its version.
pub proof fn law_server_vouches_for_the_key_on_record(
    srv: ServerView,
    peers: Map<Seq<char>, PeerView>,
    version: Seq<char>,
    id: Seq<char>,
)
    ensures
        srv.get_pk(peers, version, id) is Some <==> srv.sk is Some && version.len() > 0
            && peers.contains_key(id),
        srv.get_pk(peers, version, id) matches Some(k) ==> k.id == id && k.pk == peers[id].pk,
        srv.get_pk_needs(peers, version, id) is Some <==> srv.sk is Some && version.len() > 0
            && !peers.contains_key(id),
        srv.get_pk_needs(peers, version, id) matches Some(i) ==> i == id,
{
}

/// What an outdated peer is told is our own serial and our own list.
pub proof fn law_configuration_told_is_our_own(srv: ServerView)
    ensures
        srv.config_update().serial == srv.serial,
        srv.config_update().rendezvous_servers == srv.rendezvous_servers,
{
}

/// A key exchange starts with one key: the public key of this start, under the signature of the
/// server's own key. A server without a key starts none.
pub proof fn law_key_exchange_starts_with_the_signed_key(srv: ServerView)
    ensures
        srv.sk is None ==> srv.first_key() is None,
        srv.sk matches Some(sk) ==> (srv.first_key() matches Some(OutgoingView::KeyExchange { keys })
            && keys.len() == 1 && keys[0] == signed_message(srv.secure_tcp_pk_b, sk)),
{
}

/// Of the servers, those that are real are kept, and only those: in their order, so that all of them
/// stay where all are real.
pub proof fn law_real_servers_are_kept(servers: Seq<Seq<char>>, valid: Seq<bool>, s: Seq<char>)
    requires
        servers.len() <= valid.len(),
    ensures
        valid_servers(servers, valid).contains(s) <==> exists|i: int|
            0 <= i < servers.len() && #[trigger] servers[i] == s && valid[i],
        valid_servers(servers, valid).len() <= servers.len(),
        (forall|i: int| 0 <= i < servers.len() ==> #[trigger] valid[i]) ==> valid_servers(
            servers,
            valid,
        ) == servers,
        (forall|i: int| 0 <= i < servers.len() ==> !#[trigger] valid[i]) ==> valid_servers(
            servers,
            valid,
        ).len() == 0,
    decreases servers.len(),
{
    if servers.len() > 0 {
        let n = servers.len() - 1;
        let front = servers.drop_last();
        law_real_servers_are_kept(front, valid, s);
        assert(servers =~= front.push(servers[n]));
        let kept = valid_servers(front, valid);
        if valid[n] {
            let all = kept.push(servers[n]);
            assert(valid_servers(servers, valid) == all);
            assert(all[kept.len() as int] == servers[n]);
            if kept.contains(s) {
                let i = choose|i: int| 0 <= i < kept.len() && kept[i] == s;
                assert(all[i] == s);
            }
            if all.contains(s) && s != servers[n] {
                let i = choose|i: int| 0 <= i < all.len() && all[i] == s;
                assert(kept[i] == s);
            }
        }
        if kept.contains(s) {
            let i = choose|i: int| 0 <= i < front.len() && #[trigger] front[i] == s && valid[i];
            assert(servers[i] == s && valid[i]);
        }
        if exists|i: int| 0 <= i < servers.len() && #[trigger] servers[i] == s && valid[i] {
            let i = choose|i: int| 0 <= i < servers.len() && #[trigger] servers[i] == s && valid[i];
            if i < n {
                assert(front[i] == s && valid[i]);
            }
        }
    } else {
        assert(valid_servers(servers, valid) =~= servers);
    }
}

/// A new list of relay servers is used as it is until it is tried; then those that answered are
/// used. Where none answered, those that were used before still are; and the list that is tried
/// stays whole, so that one that failed is tried again.
pub proof fn law_relays_that_answer_are_used(
    srv: ServerView,
    servers: Seq<Seq<char>>,
    answered: Seq<Seq<char>>,
)
    ensures
        srv.with_relays(servers).relay_servers == servers,
        srv.with_relays(servers).relay_servers0 == servers,
        answered.len() > 0 ==> srv.with_answers(answered).relay_servers == answered,
        answered.len() == 0 ==> srv.with_answers(answered).relay_servers == srv.relay_servers,
        srv.with_answers(answered).relay_servers0 == srv.relay_servers0,
        srv.with_answers(answered) == (ServerView {
            relay_servers: srv.with_answers(answered).relay_servers,
            ..srv
        }),
        srv.with_relays(servers) == (ServerView {
            relay_servers: servers,
            relay_servers0: servers,
            ..srv
        }),
{
}

/// A new configuration is the one that outdated peers are told of from then on, and touches nothing
/// else.
pub proof fn law_new_configuration_is_told(srv: ServerView, serial: i32, servers: Seq<Seq<char>>)
    ensures
        srv.configured(serial, servers).config_update() == (ConfigUpdateView {
            serial,
            rendezvous_servers: servers,
        }),
        srv.configured(serial, servers) == (ServerView {
            serial,
            rendezvous_servers: servers,
            ..srv
        }),
{
}

} // verus!
