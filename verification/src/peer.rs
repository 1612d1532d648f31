//! The peers that the server knows, and when each was last heard of.
use vstd::prelude::*;

use crate::addr::{Endpoint, EndpointView, SocketAddress};
use crate::clock::{elapsed_millis, elapsed_secs, spec_elapsed_millis, spec_elapsed_secs};
use crate::message::{same_bytes, texts};
use crate::table::{lemma_put_row, lemma_row_found, rows_map, Table};

verus! {

/// Milliseconds without a sign of life after which a peer counts as offline.
pub const REG_TIMEOUT: u64 = 30_000;

/// Seconds after which a peer may present its key again as often as it likes.
pub const KEY_REGISTRATION_DUR: u64 = 6;

/// A peer that has presented its key more often than this has to wait.
pub const MAX_KEY_REGISTRATIONS: u32 = 2;

/// What is known of a peer.
pub struct PeerRecord {
    /// Where it was last heard from; port 0 where it has not been heard from since it was loaded.
    pub socket_addr: Endpoint,
    /// When it was last heard of; `None` where that was too long ago to count.
    pub last_reg: Option<u64>,
    pub uuid: Vec<u8>,
    pub pk: Vec<u8>,
    /// The text of the IP from which it presented its key.
    pub ip: String,
    /// How often it has presented its key of late, and when it last did.
    pub reg_pk: (u32, u64),
}

#[verifier::ext_equal]
pub struct PeerView {
    pub socket_addr: EndpointView,
    pub last_reg: Option<u64>,
    pub uuid: Seq<u8>,
    pub pk: Seq<u8>,
    pub ip: Seq<char>,
    pub reg_pk: (u32, u64),
}

impl View for PeerRecord {
    type V = PeerView;

    open spec fn view(&self) -> PeerView {
        PeerView {
            socket_addr: self.socket_addr@,
            last_reg: self.last_reg,
            uuid: self.uuid@,
            pk: self.pk@,
            ip: self.ip@,
            reg_pk: self.reg_pk,
        }
    }
}

/// No address at all.
pub open spec fn nowhere() -> EndpointView {
    EndpointView {
        addr: SocketAddress::V4 { ip: 0, port: 0 },
        key: SocketAddress::V4 { ip: 0, port: 0 },
        ip_text: "0.0.0.0"@,
        key_ip_text: "0.0.0.0"@,
    }
}

/// A peer as it is in the store, not heard of since the server started.
pub open spec fn stored_peer(uuid: Seq<u8>, pk: Seq<u8>, ip: Seq<char>) -> PeerView {
    PeerView { socket_addr: nowhere(), last_reg: None, uuid, pk, ip, reg_pk: (0, 0) }
}

/// A peer of which nothing is known.
pub open spec fn unknown_peer() -> PeerView {
    stored_peer(Seq::empty(), Seq::empty(), Seq::empty())
}

/// How the key that a peer presents compares with what is known of the peer.
#[derive(Clone, Copy, Debug, PartialEq, Eq, Structural)]
pub enum KeyCheck {
    /// It is someone else's id.
    Mismatch,
    /// It may be filed. `changed` says that the record would change, `ip_changed` that a known
    /// peer now has another IP.
    Fine { changed: bool, ip_changed: bool },
}

impl PeerView {
    /// The peer was heard of less than [`REG_TIMEOUT`] ago.
    pub open spec fn online(self, now: u64) -> bool {
        match self.last_reg {
            Some(t) => spec_elapsed_millis(now, t) < REG_TIMEOUT,
            None => false,
        }
    }

    /// The peer has a new IP, as far as `from` tells. A loopback address tells nothing.
    pub open spec fn ip_change(self, from: EndpointView) -> bool {
        &&& if self.socket_addr.addr.spec_port() != 0 {
            from.addr.spec_ip() != self.socket_addr.addr.spec_ip()
        } else {
            from.ip_text != self.ip
        }
        &&& !from.addr.spec_ip().spec_is_loopback()
    }

    /// The peer has to present its key before it is heard.
    pub open spec fn must_show_key(self, from: EndpointView) -> bool {
        self.pk.len() == 0 || self.ip_change(from)
    }

    /// The record after a heartbeat from `from`.
    pub open spec fn heard(self, from: EndpointView, now: u64) -> PeerView {
        if self.must_show_key(from) {
            self
        } else {
            PeerView { socket_addr: from, last_reg: Some(now), ..self }
        }
    }

    /// A first key is always taken. After that the uuid has to stay, and of the IP and the key
    /// only one may change at a time.
    pub open spec fn key_check(self, uuid: Seq<u8>, pk: Seq<u8>, ip: Seq<char>) -> KeyCheck {
        if self.uuid.len() == 0 {
            KeyCheck::Fine { changed: true, ip_changed: false }
        } else if self.uuid != uuid || (self.ip != ip && self.pk != pk) {
            KeyCheck::Mismatch
        } else {
            KeyCheck::Fine { changed: self.pk != pk || self.ip != ip, ip_changed: self.ip != ip }
        }
    }

    /// The peer has presented its key too often of late.
    pub open spec fn key_too_frequent(self, now: u64) -> bool {
        spec_elapsed_secs(now, self.reg_pk.1) <= KEY_REGISTRATION_DUR && self.reg_pk.0
            > MAX_KEY_REGISTRATIONS
    }

    /// The record after the peer has presented its key once more.
    pub open spec fn key_counted(self, now: u64) -> PeerView {
        PeerView {
            reg_pk: (
                if spec_elapsed_secs(now, self.reg_pk.1) > KEY_REGISTRATION_DUR {
                    1
                } else {
                    (self.reg_pk.0 + 1) as u32
                },
                now,
            ),
            ..self
        }
    }

    /// The record with this key in it, presented from `from`.
    pub open spec fn key_filed(
        self,
        from: EndpointView,
        uuid: Seq<u8>,
        pk: Seq<u8>,
        now: u64,
    ) -> PeerView {
        PeerView {
            socket_addr: from,
            last_reg: Some(now),
            uuid,
            pk,
            ip: from.ip_text,
            reg_pk: self.reg_pk,
        }
    }
}

impl PeerRecord {
    /// Whether the peer was heard of less than [`REG_TIMEOUT`] ago.
    pub fn online(&self, now: u64) -> (r: bool)
        ensures
            r == self@.online(now),
    {
        match self.last_reg {
            Some(t) => elapsed_millis(now, t) < REG_TIMEOUT,
            None => false,
        }
    }

    /// Takes note of a heartbeat from `from`, and says whether the peer has to present its key
    /// first, in which case nothing is noted.
    pub fn hear(&mut self, from: &Endpoint, now: u64) -> (r: bool)
        ensures
            r == old(self)@.must_show_key(from@),
            final(self)@ == old(self)@.heard(from@, now),
            !r ==> final(self)@.socket_addr == from@ && final(self)@.last_reg == Some(now),
            r ==> final(self)@ == old(self)@,
    {
        let ip = from.addr.ip();
        let elsewhere = if self.socket_addr.addr.port() != 0 {
            ip != self.socket_addr.addr.ip()
        } else {
            from.ip_text != self.ip
        };
        let ip_change = elsewhere && !ip.is_loopback();
        let request_pk = self.pk.len() == 0 || ip_change;
        if !request_pk {
            self.socket_addr = from.dup();
            self.last_reg = Some(now);
        }
        request_pk
    }

    /// Compares a key that is presented with what is known.
    pub fn check_key(&self, uuid: &Vec<u8>, pk: &Vec<u8>, ip: &String) -> (r: KeyCheck)
        ensures
            r == self@.key_check(uuid@, pk@, ip@),
    {
        if self.uuid.len() == 0 {
            return KeyCheck::Fine { changed: true, ip_changed: false };
        }
        let ip_changed = self.ip != *ip;
        let pk_changed = !same_bytes(&self.pk, pk);
        if !same_bytes(&self.uuid, uuid) || (ip_changed && pk_changed) {
            KeyCheck::Mismatch
        } else {
            KeyCheck::Fine { changed: pk_changed || ip_changed, ip_changed }
        }
    }

    /// Counts one more key presented, unless there were too many of late; says whether it was
    /// counted.
    pub fn count_key(&mut self, now: u64) -> (r: bool)
        ensures
            r == !old(self)@.key_too_frequent(now),
            final(self)@ == if r {
                old(self)@.key_counted(now)
            } else {
                old(self)@
            },
    {
        let mut count: u32 = self.reg_pk.0;
        if elapsed_secs(now, self.reg_pk.1) > KEY_REGISTRATION_DUR {
            count = 0;
        } else if count > MAX_KEY_REGISTRATIONS {
            return false;
        }
        self.reg_pk = (count + 1, now);
        true
    }

    /// Files a key that was presented from `from`.
    pub fn file_key(&mut self, from: &Endpoint, uuid: Vec<u8>, pk: Vec<u8>, now: u64)
        ensures
            final(self)@ == old(self)@.key_filed(from@, uuid@, pk@, now),
    {
        self.socket_addr = from.dup();
        self.last_reg = Some(now);
        self.uuid = uuid;
        self.pk = pk;
        self.ip = from.ip_text.clone();
    }
}

/// The peers in memory, by id.
pub struct PeerMap {
    table: Table<PeerRecord>,
}

impl View for PeerMap {
    type V = Map<Seq<char>, PeerView>;

    closed spec fn view(&self) -> Map<Seq<char>, PeerView> {
        rows_map(self.table@)
    }
}

/// The record of `id`, where there is one, or that of an unknown peer.
pub open spec fn peer_or_unknown(peers: Map<Seq<char>, PeerView>, id: Seq<char>) -> PeerView {
    if peers.contains_key(id) {
        peers[id]
    } else {
        unknown_peer()
    }
}

/// The peers after `id` was loaded: one that is in memory already stays as it is.
pub open spec fn loaded(
    peers: Map<Seq<char>, PeerView>,
    id: Seq<char>,
    p: PeerView,
) -> Map<Seq<char>, PeerView> {
    if peers.contains_key(id) {
        peers
    } else {
        peers.insert(id, p)
    }
}

/// The peer `id` is in memory, and online.
pub open spec fn is_online(peers: Map<Seq<char>, PeerView>, id: Seq<char>, now: u64) -> bool {
    peers.contains_key(id) && peers[id].online(now)
}

/// Bit `i` of a string of bits that starts at the most significant bit of the first byte.
pub open spec fn bit_at(states: Seq<u8>, i: int) -> bool {
    states[i / 8] & (0x80u8 >> ((i % 8) as u8)) != 0
}

/// One bit for each of `ids`, set where that peer is online, in as few bytes as they fit; what is
/// left over in the last byte is clear.
pub open spec fn are_online_states(
    states: Seq<u8>,
    peers: Map<Seq<char>, PeerView>,
    ids: Seq<Seq<char>>,
    now: u64,
) -> bool {
    &&& states.len() == (ids.len() + 7) / 8
    &&& forall|i: int|
        0 <= i < 8 * states.len() ==> (#[trigger] bit_at(states, i) <==> i < ids.len()
            && is_online(peers, ids[i], now))
}

impl PeerMap {
    /// No id occurs twice.
    pub closed spec fn wf(&self) -> bool {
        self.table.wf()
    }

    pub fn new() -> (r: PeerMap)
        ensures
            r.wf(),
            r@ == Map::<Seq<char>, PeerView>::empty(),
    {
        let r = PeerMap { table: Table::new() };
        assert(r@ =~= Map::<Seq<char>, PeerView>::empty());
        r
    }

    /// Whether `id` is in memory.
    pub fn has(&self, id: &str) -> (r: bool)
        requires
            self.wf(),
        ensures
            r == self@.contains_key(id@),
    {
        self.table.position(id).is_some()
    }

    /// The record of `id`, if it is in memory.
    pub fn get(&self, id: &str) -> (r: Option<&PeerRecord>)
        requires
            self.wf(),
        ensures
            match r {
                Some(p) => self@.contains_key(id@) && p@ == self@[id@],
                None => !self@.contains_key(id@),
            },
    {
        self.table.get(id)
    }

    /// Row `i` of the table is that of `id`: to change its value is to insert into the map.
    proof fn lemma_slot(&self, i: int, id: Seq<char>)
        requires
            self.wf(),
            0 <= i < self.table@.len(),
            self.table@[i].0 == id,
        ensures
            self@.contains_key(id),
            self@[id] == self.table@[i].1,
            forall|x: PeerView|
                rows_map(#[trigger] self.table@.update(i, (id, x))) == self@.insert(id, x),
    {
        let rows = self.table@;
        lemma_row_found(rows, i);
        assert forall|x: PeerView| rows_map(#[trigger] rows.update(i, (id, x))) == self@.insert(
            id,
            x,
        ) by {
            lemma_put_row(rows, id, x);
        }
    }

    /// The record of `id`, to be changed in place; that of an unknown peer, which is then in
    /// memory, where there was none.
    pub fn get_or(&mut self, id: &str) -> (r: &mut PeerRecord)
        requires
            old(self).wf(),
        ensures
            final(self).wf(),
            (*r)@ == peer_or_unknown(old(self)@, id@),
            final(self)@ == old(self)@.insert(id@, (*final(r))@),
    {
        let ghost before = self@;
        match self.table.position(id) {
            Some(i) => {
                proof {
                    self.lemma_slot(i as int, id@);
                }
                self.table.at_mut(i)
            },
            None => {
                let i: usize = self.table.len();
                let fresh = PeerRecord {
                    socket_addr: nowhere_endpoint(),
                    last_reg: None,
                    uuid: Vec::new(),
                    pk: Vec::new(),
                    ip: String::new(),
                    reg_pk: (0, 0),
                };
                proof {
                    assert(fresh@ =~= unknown_peer());
                    lemma_put_row(self.table@, id@, fresh@);
                }
                self.table.put(id.to_owned(), fresh);
                proof {
                    self.lemma_slot(i as int, id@);
                    assert forall|x: PeerView| self@.insert(id@, x) == #[trigger] before.insert(
                        id@,
                        x,
                    ) by {
                        assert(self@.insert(id@, x) =~= before.insert(id@, x));
                    }
                }
                self.table.at_mut(i)
            },
        }
    }

    /// Brings a peer into memory as the store has it. One that is in memory already stays as it is.
    pub fn load(&mut self, id: String, uuid: Vec<u8>, pk: Vec<u8>, ip: String)
        requires
            old(self).wf(),
        ensures
            final(self).wf(),
            final(self)@ == loaded(old(self)@, id@, stored_peer(uuid@, pk@, ip@)),
    {
        if !self.has(id.as_str()) {
            let p = PeerRecord {
                socket_addr: nowhere_endpoint(),
                last_reg: None,
                uuid,
                pk,
                ip,
                reg_pk: (0, 0),
            };
            proof {
                assert(p@ =~= stored_peer(uuid@, pk@, ip@));
                lemma_put_row(self.table@, id@, p@);
            }
            self.table.put(id, p);
        }
    }

    /// Takes note of a heartbeat of `id` from `from`. Returns whether the peer should be asked for
    /// its public key: it is unknown, or has none yet, or has moved.
    pub fn update_addr(&mut self, id: &str, from: &Endpoint, now: u64) -> (r: bool)
        requires
            old(self).wf(),
        ensures
            final(self).wf(),
            r == (old(self)@.contains_key(id@) ==> old(self)@[id@].must_show_key(from@)),
            final(self)@ == if old(self)@.contains_key(id@) {
                old(self)@.insert(id@, old(self)@[id@].heard(from@, now))
            } else {
                old(self)@
            },
            !r ==> final(self)@.contains_key(id@) && final(self)@[id@].socket_addr == from@
                && final(self)@[id@].last_reg == Some(now),
            r ==> final(self)@ == old(self)@,
    {
        match self.table.position(id) {
            Some(i) => {
                proof {
                    self.lemma_slot(i as int, id@);
                    assert(self@.insert(id@, self@[id@]) =~= self@);
                }
                let p = self.table.at_mut(i);
                p.hear(from, now)
            },
            None => true,
        }
    }

    /// Which of `ids` are online: one bit for each, most significant bit first.
    pub fn peers_online_state(&self, ids: &Vec<String>, now: u64) -> (states: Vec<u8>)
        requires
            self.wf(),
        ensures
            are_online_states(states@, self@, texts(ids@), now),
    {
        let n: usize = ids.len();
        let bytes: usize = if n % 8 == 0 {
            n / 8
        } else {
            n / 8 + 1
        };
        let mut states: Vec<u8> = Vec::new();
        let mut k: usize = 0;
        while k < bytes
            invariant
                k <= bytes,
                states@.len() == k,
                forall|j: int| 0 <= j < k ==> states@[j] == 0,
            decreases bytes - k,
        {
            states.push(0);
            k += 1;
        }
        let mut i: usize = 0;
        proof {
            assert forall|j: int| 0 <= j < 8 * states@.len() implies !#[trigger] bit_at(
                states@,
                j,
            ) by {
                lemma_no_bit((j % 8) as u8);
            }
        }
        while i < n
            invariant
                self.wf(),
                i <= n,
                n == ids@.len(),
                states@.len() == bytes,
                bytes == (n + 7) / 8,
                forall|j: int|
                    0 <= j < 8 * bytes ==> (#[trigger] bit_at(states@, j) <==> j < i && is_online(
                        self@,
                        texts(ids@)[j],
                        now,
                    )),
            decreases n - i,
        {
            let online = match self.get(ids[i].as_str()) {
                Some(p) => p.online(now),
                None => false,
            };
            assert(online == is_online(self@, texts(ids@)[i as int], now));
            if online {
                let ghost before = states@;
                let b: u8 = states[i / 8];
                let shift: u8 = (i % 8) as u8;
                states.set(i / 8, b | (0x80u8 >> shift));
                proof {
                    assert forall|j: int| 0 <= j < 8 * bytes implies (#[trigger] bit_at(states@, j)
                        <==> j < i + 1 && is_online(self@, texts(ids@)[j], now)) by {
                        assert(bit_at(before, j) <==> j < i && is_online(
                            self@,
                            texts(ids@)[j],
                            now,
                        ));
                        if j / 8 == i as int / 8 {
                            lemma_set_bit(b, shift, (j % 8) as u8);
                        }
                    }
                }
            }
            i += 1;
        }
        states
    }
}

proof fn lemma_no_bit(k: u8)
    requires
        k < 8,
    ensures
        0u8 & (0x80u8 >> k) == 0,
{
    assert(0u8 & (0x80u8 >> k) == 0) by (bit_vector);
}

/// Setting one bit sets that bit, and no other.
proof fn lemma_set_bit(b: u8, k: u8, j: u8)
    requires
        k < 8,
        j < 8,
    ensures
        (b | (0x80u8 >> k)) & (0x80u8 >> j) != 0 <==> j == k || b & (0x80u8 >> j) != 0,
{
    assert((b | (0x80u8 >> k)) & (0x80u8 >> j) != 0 <==> j == k || b & (0x80u8 >> j) != 0)
        by (bit_vector)
        requires
            k < 8,
            j < 8,
    ;
}

fn nowhere_endpoint() -> (r: Endpoint)
    ensures
        r@ == nowhere(),
{
    Endpoint {
        addr: SocketAddress::V4 { ip: 0, port: 0 },
        key: SocketAddress::V4 { ip: 0, port: 0 },
        ip_text: "0.0.0.0".to_owned(),
        key_ip_text: "0.0.0.0".to_owned(),
    }
}

/// A peer counts as online until thirty seconds have gone by since it was last heard of; one that
/// was never heard of does not.
pub proof fn law_peer_is_online_for_thirty_seconds(p: PeerView, now: u64)
    ensures
        p.online(now) <==> (p.last_reg matches Some(t) && now - t < 30_000_000_000),
{
}

/// A heartbeat that is not answered with a request for the key makes its sender's address the one
/// at which the peer is reached, and its time the one at which the peer was last heard of. It tells
/// nothing else, so nothing else changes. A heartbeat that is answered with one changes nothing.
pub proof fn law_heartbeat_refreshes_address_and_time(p: PeerView, from: EndpointView, now: u64)
    ensures
        ({
            let q = p.heard(from, now);
            &&& !p.must_show_key(from) ==> q.socket_addr == from && q.last_reg == Some(now)
                && q.online(now)
            &&& p.must_show_key(from) ==> q.socket_addr == p.socket_addr && q.last_reg
                == p.last_reg
            &&& q.uuid == p.uuid && q.pk == p.pk && q.ip == p.ip && q.reg_pk == p.reg_pk
        }),
{
}

/// A peer without a key is always asked for one. A peer with a key is asked for it when it turns up
/// at another IP: other than the one that it was last heard from, or, where it was not heard from
/// since it was loaded, other than the one on record. The port does not matter, and the machine
/// itself may say anything.
pub proof fn law_key_is_asked_for_after_a_move(p: PeerView, from: EndpointView)
    ensures
        p.pk.len() == 0 ==> p.must_show_key(from),
        p.pk.len() > 0 && from.addr.spec_ip().spec_is_loopback() ==> !p.must_show_key(from),
        p.pk.len() > 0 && !from.addr.spec_ip().spec_is_loopback()
            && p.socket_addr.addr.spec_port() != 0 ==> (p.must_show_key(from)
            <==> p.socket_addr.addr.spec_ip() != from.addr.spec_ip()),
        p.pk.len() > 0 && !from.addr.spec_ip().spec_is_loopback()
            && p.socket_addr.addr.spec_port() == 0 ==> (p.must_show_key(from) <==> p.ip
            != from.ip_text),
{
}

/// Heartbeat after heartbeat from one IP is heard: once one was not asked for the key, neither is
/// the next one from there, whatever its port, and the last one is the one that counts. Where the port
/// is not known, as behind a proxy, the IP has to be the one on record.
pub proof fn law_heartbeats_from_one_address_are_heard(
    p: PeerView,
    first: EndpointView,
    then: u64,
    second: EndpointView,
    now: u64,
)
    requires
        !p.must_show_key(first),
        first.addr.spec_ip() == second.addr.spec_ip(),
        first.ip_text == second.ip_text,
        first.addr.spec_port() == 0 ==> p.ip == first.ip_text,
    ensures
        !p.heard(first, then).must_show_key(second),
        p.heard(first, then).heard(second, now).socket_addr == second,
        p.heard(first, then).heard(second, now).last_reg == Some(now),
{
}

/// Of a peer on record, the uuid has to stay; and of its IP and its key, one may change at a time.
/// What is told of the change is what changed. Of a peer that has not registered yet, anything is
/// taken.
pub proof fn law_one_change_at_a_time(p: PeerView, uuid: Seq<u8>, pk: Seq<u8>, ip: Seq<char>)
    ensures
        p.uuid.len() == 0 ==> p.key_check(uuid, pk, ip) == (KeyCheck::Fine {
            changed: true,
            ip_changed: false,
        }),
        p.uuid.len() > 0 && uuid != p.uuid ==> p.key_check(uuid, pk, ip) is Mismatch,
        p.uuid.len() > 0 ==> p.key_check(p.uuid, p.pk, p.ip) == (KeyCheck::Fine {
            changed: false,
            ip_changed: false,
        }),
        p.uuid.len() > 0 && pk != p.pk ==> p.key_check(p.uuid, pk, p.ip) == (KeyCheck::Fine {
            changed: true,
            ip_changed: false,
        }),
        p.uuid.len() > 0 && ip != p.ip ==> p.key_check(p.uuid, p.pk, ip) == (KeyCheck::Fine {
            changed: true,
            ip_changed: true,
        }),
        p.uuid.len() > 0 && pk != p.pk && ip != p.ip ==> p.key_check(
            p.uuid,
            pk,
            ip,
        ) is Mismatch,
{
}

/// A peer that has presented its key three times has to wait until seven seconds have gone by since
/// the last time. Each time that counts is one more, or the first one again after such a pause; and
/// counting changes nothing else.
pub proof fn law_keys_are_counted(p: PeerView, now: u64)
    ensures
        p.key_too_frequent(now) <==> p.reg_pk.0 >= 3 && now - p.reg_pk.1 < 7_000_000_000,
        !p.key_too_frequent(now) && now - p.reg_pk.1 < 7_000_000_000 ==> p.key_counted(now).reg_pk
            == ((p.reg_pk.0 + 1) as u32, now),
        now - p.reg_pk.1 >= 7_000_000_000 ==> p.key_counted(now).reg_pk == (1u32, now),
        p.key_counted(now).socket_addr == p.socket_addr,
        p.key_counted(now).last_reg == p.last_reg,
        p.key_counted(now).uuid == p.uuid,
        p.key_counted(now).pk == p.pk,
        p.key_counted(now).ip == p.ip,
{
}

/// A key that is filed is on record from then on, with the uuid that came with it and the address
/// that it came from; the peer is online, and is not asked for the key when it is heard from there.
pub proof fn law_filed_key_is_on_record(
    p: PeerView,
    from: EndpointView,
    uuid: Seq<u8>,
    pk: Seq<u8>,
    now: u64,
)
    ensures
        ({
            let q = p.key_filed(from, uuid, pk, now);
            &&& q.uuid == uuid
            &&& q.pk == pk
            &&& q.ip == from.ip_text
            &&& q.socket_addr == from
            &&& q.last_reg == Some(now)
            &&& q.online(now)
            &&& q.reg_pk == p.reg_pk
            &&& pk.len() > 0 ==> !q.must_show_key(from)
            &&& uuid.len() > 0 ==> q.key_check(uuid, pk, from.ip_text) == (KeyCheck::Fine {
                changed: false,
                ip_changed: false,
            })
        }),
{
}

/// A peer that was loaded from the store has the uuid, the key and the IP that the store has. It is
/// offline until it is heard from, and it is heard from that IP without being asked for its key.
pub proof fn law_loaded_peer_is_offline_until_heard(
    uuid: Seq<u8>,
    pk: Seq<u8>,
    ip: Seq<char>,
    from: EndpointView,
    now: u64,
)
    ensures
        ({
            let p = stored_peer(uuid, pk, ip);
            &&& p.uuid == uuid && p.pk == pk && p.ip == ip
            &&& !p.online(now)
            &&& !p.key_too_frequent(now)
            &&& pk.len() > 0 && from.ip_text == ip ==> p.heard(from, now).online(now) && p.heard(
                from,
                now,
            ).socket_addr == from
        }),
        unknown_peer().uuid.len() == 0,
        unknown_peer().must_show_key(from),
        !unknown_peer().online(now),
        !unknown_peer().key_too_frequent(now),
{
}

/// 1 where the peer in place `i` of `ids` is online, and 0 where it is not, or there is none.
pub open spec fn online_unit(
    peers: Map<Seq<char>, PeerView>,
    ids: Seq<Seq<char>>,
    i: int,
    now: u64,
) -> int {
    if i < ids.len() && peers.contains_key(ids[i]) && peers[ids[i]].online(now) {
        1
    } else {
        0
    }
}

/// Each byte of the answer stands for eight of the ids that were asked for, the first of them being
/// worth most; and there are no more bytes than it takes.
pub proof fn law_online_states_are_read_from_the_left(
    states: Seq<u8>,
    peers: Map<Seq<char>, PeerView>,
    ids: Seq<Seq<char>>,
    now: u64,
    k: int,
)
    requires
        are_online_states(states, peers, ids, now),
        0 <= k < states.len(),
    ensures
        8 * (states.len() - 1) < ids.len() <= 8 * states.len(),
        states[k] == 128 * online_unit(peers, ids, 8 * k, now) + 64 * online_unit(
            peers,
            ids,
            8 * k + 1,
            now,
        ) + 32 * online_unit(peers, ids, 8 * k + 2, now) + 16 * online_unit(
            peers,
            ids,
            8 * k + 3,
            now,
        ) + 8 * online_unit(peers, ids, 8 * k + 4, now) + 4 * online_unit(
            peers,
            ids,
            8 * k + 5,
            now,
        ) + 2 * online_unit(peers, ids, 8 * k + 6, now) + online_unit(peers, ids, 8 * k + 7, now),
{
    lemma_bits_of_byte(states[k]);
    lemma_byte_is_the_sum_of_its_bits(states[k] as int);
    lemma_state_bit(states, peers, ids, now, k, 0);
    lemma_state_bit(states, peers, ids, now, k, 1);
    lemma_state_bit(states, peers, ids, now, k, 2);
    lemma_state_bit(states, peers, ids, now, k, 3);
    lemma_state_bit(states, peers, ids, now, k, 4);
    lemma_state_bit(states, peers, ids, now, k, 5);
    lemma_state_bit(states, peers, ids, now, k, 6);
    lemma_state_bit(states, peers, ids, now, k, 7);
}

/// Bit `j` of byte `k` stands for the id in place `8 * k + j`.
proof fn lemma_state_bit(
    states: Seq<u8>,
    peers: Map<Seq<char>, PeerView>,
    ids: Seq<Seq<char>>,
    now: u64,
    k: int,
    j: u8,
)
    requires
        are_online_states(states, peers, ids, now),
        0 <= k < states.len(),
        j < 8,
    ensures
        states[k] & (0x80u8 >> j) != 0 <==> online_unit(peers, ids, 8 * k + j, now) == 1,
{
    let i = 8 * k + j;
    assert(i / 8 == k && i % 8 == j);
    assert(bit_at(states, i) <==> online_unit(peers, ids, i, now) == 1);
}

proof fn lemma_byte_is_the_sum_of_its_bits(b: int)
    requires
        0 <= b < 256,
    ensures
        b == 128 * (b / 128 % 2) + 64 * (b / 64 % 2) + 32 * (b / 32 % 2) + 16 * (b / 16 % 2) + 8 * (
        b / 8 % 2) + 4 * (b / 4 % 2) + 2 * (b / 2 % 2) + b % 2,
{
    assert(b / 4 == b / 2 / 2 && b / 8 == b / 4 / 2 && b / 16 == b / 8 / 2);
    assert(b / 32 == b / 16 / 2 && b / 64 == b / 32 / 2 && b / 128 == b / 64 / 2);
}

/// The bits of a byte, as the digits of its number.
proof fn lemma_bits_of_byte(b: u8)
    ensures
        b & (0x80u8 >> 0u8) != 0 <==> b / 128 % 2 == 1,
        b & (0x80u8 >> 1u8) != 0 <==> b / 64 % 2 == 1,
        b & (0x80u8 >> 2u8) != 0 <==> b / 32 % 2 == 1,
        b & (0x80u8 >> 3u8) != 0 <==> b / 16 % 2 == 1,
        b & (0x80u8 >> 4u8) != 0 <==> b / 8 % 2 == 1,
        b & (0x80u8 >> 5u8) != 0 <==> b / 4 % 2 == 1,
        b & (0x80u8 >> 6u8) != 0 <==> b / 2 % 2 == 1,
        b & (0x80u8 >> 7u8) != 0 <==> b % 2 == 1,
{
    assert(b & (0x80u8 >> 0u8) != 0 <==> b / 128 % 2 == 1) by (bit_vector);
    assert(b & (0x80u8 >> 1u8) != 0 <==> b / 64 % 2 == 1) by (bit_vector);
    assert(b & (0x80u8 >> 2u8) != 0 <==> b / 32 % 2 == 1) by (bit_vector);
    assert(b & (0x80u8 >> 3u8) != 0 <==> b / 16 % 2 == 1) by (bit_vector);
    assert(b & (0x80u8 >> 4u8) != 0 <==> b / 8 % 2 == 1) by (bit_vector);
    assert(b & (0x80u8 >> 5u8) != 0 <==> b / 4 % 2 == 1) by (bit_vector);
    assert(b & (0x80u8 >> 6u8) != 0 <==> b / 2 % 2 == 1) by (bit_vector);
    assert(b & (0x80u8 >> 7u8) != 0 <==> b % 2 == 1) by (bit_vector);
}

/// A peer that is loaded is in memory afterwards, as the store has it; but what is known of a peer in
/// memory is newer than the store, and stays. No other peer is touched.
pub proof fn law_memory_is_newer_than_the_store(
    peers: Map<Seq<char>, PeerView>,
    id: Seq<char>,
    p: PeerView,
    other: Seq<char>,
)
    ensures
        loaded(peers, id, p).contains_key(id),
        !peers.contains_key(id) ==> loaded(peers, id, p)[id] == p,
        peers.contains_key(id) ==> loaded(peers, id, p) == peers,
        other != id ==> loaded(peers, id, p).contains_key(other) == peers.contains_key(other),
        other != id && peers.contains_key(other) ==> loaded(peers, id, p)[other] == peers[other],
{
}

} // verus!
