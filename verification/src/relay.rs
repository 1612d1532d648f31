//! The relay servers, in turn.
use vstd::prelude::*;

use crate::message::texts;
use crate::text::has_char;

verus! {

/// The relay server whose turn it is: none where there is none, the only one where there is one.
pub open spec fn relay_turn(servers: Seq<Seq<char>>, rotation: usize) -> Seq<char> {
    if servers.len() == 0 {
        Seq::empty()
    } else if servers.len() == 1 {
        servers[0]
    } else {
        servers[rotation as int % servers.len() as int]
    }
}

/// The counter after a turn. It is only used where there is a choice, and starts again at 0 after
/// the largest number.
pub open spec fn relay_next(servers: Seq<Seq<char>>, rotation: usize) -> usize {
    if servers.len() <= 1 {
        rotation
    } else if rotation == usize::MAX {
        0
    } else {
        (rotation + 1) as usize
    }
}

/// Takes the next relay server.
pub fn get_relay_server(servers: &Vec<String>, rotation: &mut usize) -> (r: String)
    ensures
        r@ == relay_turn(texts(servers@), *old(rotation)),
        *final(rotation) == relay_next(texts(servers@), *old(rotation)),
{
    let n: usize = servers.len();
    if n == 0 {
        let r = String::new();
        assert(r@ =~= Seq::<char>::empty());
        return r;
    } else if n == 1 {
        return servers[0].clone();
    }
    let turn: usize = *rotation;
    *rotation = turn.wrapping_add(1);
    servers[turn % n].clone()
}

/// A server that is handed out is one of the servers.
pub proof fn law_relay_server_is_one_of_the_servers(servers: Seq<Seq<char>>, rotation: usize)
    requires
        servers.len() > 0,
    ensures
        servers.contains(relay_turn(servers, rotation)),
{
    if servers.len() > 1 {
        let i = rotation as int % servers.len() as int;
        assert(servers[i] == relay_turn(servers, rotation));
    } else {
        assert(servers[0] == relay_turn(servers, rotation));
    }
}

/// The counter after `k` turns.
pub open spec fn relay_after(servers: Seq<Seq<char>>, rotation: usize, k: nat) -> usize
    decreases k,
{
    if k == 0 {
        rotation
    } else {
        relay_next(servers, relay_after(servers, rotation, (k - 1) as nat))
    }
}

/// The servers take turns: `k` turns from now it is on the server `k` places further on, and after
/// as many turns as there are servers it is on the first one again. The counter must not start
/// again in between.
pub proof fn law_relay_servers_take_turns(servers: Seq<Seq<char>>, rotation: usize, k: nat)
    requires
        servers.len() > 1,
        rotation + k <= usize::MAX,
    ensures
        relay_after(servers, rotation, k) == rotation + k,
        relay_turn(servers, relay_after(servers, rotation, k)) == servers[(rotation + k)
            % servers.len() as int],
        k == servers.len() ==> relay_turn(servers, relay_after(servers, rotation, k))
            == relay_turn(servers, rotation),
    decreases k,
{
    if k > 0 {
        law_relay_servers_take_turns(servers, rotation, (k - 1) as nat);
    }
    vstd::arithmetic::div_mod::lemma_mod_add_multiples_vanish(
        rotation as int,
        servers.len() as int,
    );
}

/// A host to try a relay server at: with the usual relay port where it names none.
pub open spec fn spec_relay_host(server: Seq<char>) -> Seq<char> {
    if server.contains(':') {
        server
    } else {
        server + ":21117"@
    }
}

/// Where to try a relay server.
pub fn relay_host(server: &String) -> (r: String)
    ensures
        r@ == spec_relay_host(server@),
{
    let mut host = server.clone();
    if !has_char(server.as_str(), ':') {
        host.append(":21117");
    }
    host
}

/// Where to try each of the relay servers.
pub fn relay_hosts(servers: &Vec<String>) -> (r: Vec<String>)
    ensures
        texts(r@) == texts(servers@).map_values(|s: Seq<char>| spec_relay_host(s)),
{
    let mut r: Vec<String> = Vec::new();
    let mut i: usize = 0;
    while i < servers.len()
        invariant
            i <= servers@.len(),
            r@.len() == i,
            forall|j: int| 0 <= j < i ==> (#[trigger] r@[j])@ == spec_relay_host(servers@[j]@),
        decreases servers@.len() - i,
    {
        r.push(relay_host(&servers[i]));
        i += 1;
    }
    assert(texts(r@) =~= texts(servers@).map_values(|s: Seq<char>| spec_relay_host(s)));
    r
}

/// Where there is no choice, there are no turns: without a server none is named, and the only one
/// always is; the counter stays.
pub proof fn law_no_turns_without_a_choice(servers: Seq<Seq<char>>, rotation: usize)
    requires
        servers.len() <= 1,
    ensures
        servers.len() == 0 ==> relay_turn(servers, rotation).len() == 0,
        servers.len() == 1 ==> relay_turn(servers, rotation) == servers[0],
        relay_next(servers, rotation) == rotation,
{
}

/// The counter goes through all its numbers, and starts again at 0 after the largest; its remainder
/// tells the server.
pub proof fn law_counter_tells_the_server(servers: Seq<Seq<char>>, rotation: usize)
    requires
        servers.len() > 1,
    ensures
        relay_turn(servers, rotation) == servers[rotation as int % servers.len() as int],
        rotation < usize::MAX ==> relay_next(servers, rotation) == rotation + 1,
        rotation == usize::MAX ==> relay_next(servers, rotation) == 0,
{
}

/// A relay server is tried at the port that it names, or else at 21117: the host is the server's own
/// text, with nothing but that port added.
pub proof fn law_relay_host_has_a_port(server: Seq<char>)
    ensures
        spec_relay_host(server).contains(':'),
        server.contains(':') ==> spec_relay_host(server) == server,
        !server.contains(':') ==> spec_relay_host(server) == server + seq![
            ':',
            '2',
            '1',
            '1',
            '1',
            '7',
        ],
{
    reveal_strlit(":21117");
    if !server.contains(':') {
        assert(":21117"@ =~= seq![':', '2', '1', '1', '1', '7']);
        assert(spec_relay_host(server)[server.len() as int] == ':');
    }
}

} // verus!
