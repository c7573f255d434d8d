//! Per-connection state and the registry of live connections: the
//! state-machine variant, the pending state-change listeners, the
//! negotiated crypto parameters and the bridge to the reliable-send
//! queue's round-trip estimate.

use vstd::prelude::*;
use crate::packets::PacketType;

verus! {

/// A peer address, wide enough for any IP address and port.
#[derive(Clone, Copy, PartialEq, Eq, Structural, Debug)]
pub struct PeerAddr {
    pub ip: u128,
    pub port: u16,
}

/// The round-trip sample bridge: what the handshake feeds to the
/// external RTT estimator.  Only first-try `clientinit` entries ever
/// produce a sample.
#[derive(Clone, Copy, PartialEq, Eq, Structural, Debug)]
pub struct RttEstimator {
    pub last_sample_ms: u64,
    pub samples: u64,
}

impl RttEstimator {
    pub fn new() -> (r: RttEstimator)
        ensures
            r.samples == 0,
            r.last_sample_ms == 0,
    {
        RttEstimator { last_sample_ms: 0, samples: 0 }
    }

    /// Record one round-trip sample; the count saturates.
    pub fn update_srtt(&mut self, sample_ms: u64)
        ensures
            final(self).last_sample_ms == sample_ms,
            final(self).samples == if old(self).samples < u64::MAX {
                (old(self).samples + 1) as u64
            } else {
                u64::MAX
            },
    {
        self.last_sample_ms = sample_ms;
        if self.samples < u64::MAX {
            self.samples = self.samples + 1;
        }
    }
}

/// One entry of the external reliable-send queue, reduced to the fields
/// the handshake reads at the `initserver` boundary.
#[derive(Clone, Copy, PartialEq, Eq, Structural, Debug)]
pub struct SendRecord {
    pub p_type: PacketType,
    pub p_id: u16,
    pub tries: u32,
    pub sent_at_ms: u64,
}

/// Session parameters negotiated by the handshake, materialised at the
/// `initivexpand` transition.
pub struct ConnectedParams {
    pub c_id: u16,
    pub server_key: Vec<u8>,
    pub shared_iv: Vec<u8>,
    pub shared_mac: Vec<u8>,
    pub outgoing_p_ids: Vec<(u32, u16)>,
    pub incoming_p_ids: Vec<(u32, u16)>,
}

#[verifier::ext_equal]
pub struct ParamsV {
    pub c_id: u16,
    pub server_key: Seq<u8>,
    pub shared_iv: Seq<u8>,
    pub shared_mac: Seq<u8>,
    pub outgoing_p_ids: Seq<(u32, u16)>,
    pub incoming_p_ids: Seq<(u32, u16)>,
}

impl View for ConnectedParams {
    type V = ParamsV;

    open spec fn view(&self) -> ParamsV {
        ParamsV {
            c_id: self.c_id,
            server_key: self.server_key@,
            shared_iv: self.shared_iv@,
            shared_mac: self.shared_mac@,
            outgoing_p_ids: self.outgoing_p_ids@,
            incoming_p_ids: self.incoming_p_ids@,
        }
    }
}

/// Outgoing counter seeds: the `clientinitiv` command packet is already
/// counted, so the `Command` id starts at 1.
pub open spec fn seeded_outgoing() -> Seq<(u32, u16)> {
    seq![
        (0u32, 0u16),
        (0u32, 0u16),
        (0u32, 1u16),
        (0u32, 0u16),
        (0u32, 0u16),
        (0u32, 0u16),
        (0u32, 0u16),
        (0u32, 0u16),
        (0u32, 0u16),
    ]
}

/// Incoming counter seeds: the `initivexpand` command was received and
/// its ack was sent, so the `Command` and `Ack` ids start at 1.
pub open spec fn seeded_incoming() -> Seq<(u32, u16)> {
    seq![
        (0u32, 0u16),
        (0u32, 0u16),
        (0u32, 1u16),
        (0u32, 0u16),
        (0u32, 0u16),
        (0u32, 0u16),
        (0u32, 1u16),
        (0u32, 0u16),
        (0u32, 0u16),
    ]
}

/// The parameters as the `initivexpand` transition creates them: client
/// id 0 until `initserver` assigns one, counters seeded as above.
pub open spec fn initial_params(server_key: Seq<u8>, iv: Seq<u8>, mac: Seq<u8>) -> ParamsV {
    ParamsV {
        c_id: 0,
        server_key: server_key,
        shared_iv: iv,
        shared_mac: mac,
        outgoing_p_ids: seeded_outgoing(),
        incoming_p_ids: seeded_incoming(),
    }
}

pub open spec fn wf_params(p: ParamsV) -> bool {
    p.outgoing_p_ids.len() == 9 && p.incoming_p_ids.len() == 9
}

impl ConnectedParams {
    pub fn new(server_key: Vec<u8>, shared_iv: Vec<u8>, shared_mac: Vec<u8>) -> (r:
        ConnectedParams)
        ensures
            r@ == initial_params(server_key@, shared_iv@, shared_mac@),
            wf_params(r@),
    {
        let mut outgoing: Vec<(u32, u16)> = Vec::new();
        let mut incoming: Vec<(u32, u16)> = Vec::new();
        let mut i: usize = 0;
        while i < 9
            invariant
                0 <= i <= 9,
                outgoing@.len() == i,
                incoming@.len() == i,
                forall|j: int| 0 <= j < i ==> outgoing@[j] == (0u32, 0u16),
                forall|j: int| 0 <= j < i ==> incoming@[j] == (0u32, 0u16),
            decreases 9 - i,
        {
            outgoing.push((0, 0));
            incoming.push((0, 0));
            i += 1;
        }
        // The clientinitiv command is already out; initivexpand and its
        // ack are already counted.
        outgoing.set(2, (0, 1));
        incoming.set(2, (0, 1));
        incoming.set(6, (0, 1));
        let r = ConnectedParams {
            c_id: 0,
            server_key,
            shared_iv,
            shared_mac,
            outgoing_p_ids: outgoing,
            incoming_p_ids: incoming,
        };
        proof {
            assert(r@.outgoing_p_ids =~= seeded_outgoing());
            assert(r@.incoming_p_ids =~= seeded_incoming());
            assert(r@ =~= initial_params(server_key@, shared_iv@, shared_mac@));
        }
        r
    }
}

/// The per-connection handshake state.  Transitions run only forward
/// along Init0, Init2, ClientInitIv, Connecting, Connected,
/// Disconnected; `state_rank` gives that ordering and the engine's
/// steps never lower it.
pub enum ServerConnectionState {
    /// After `Init0` was sent.
    Init0 { version: u32, random0: Vec<u8> },
    /// After `Init2` was sent.
    Init2 { version: u32 },
    /// After `Init4` was sent.
    ClientInitIv { alpha: Vec<u8> },
    /// The initial handshake is done; the next packet has to be
    /// `clientinit`.
    Connecting,
    /// Fully connected, the client id is known.
    Connected { c_id: u16 },
    /// No more packets are accepted.
    Disconnected,
}

#[verifier::ext_equal]
pub enum StateV {
    Init0 { version: u32, random0: Seq<u8> },
    Init2 { version: u32 },
    ClientInitIv { alpha: Seq<u8> },
    Connecting,
    Connected { c_id: u16 },
    Disconnected,
}

impl View for ServerConnectionState {
    type V = StateV;

    open spec fn view(&self) -> StateV {
        match self {
            ServerConnectionState::Init0 { version, random0 } => StateV::Init0 {
                version: *version,
                random0: random0@,
            },
            ServerConnectionState::Init2 { version } => StateV::Init2 { version: *version },
            ServerConnectionState::ClientInitIv { alpha } => StateV::ClientInitIv { alpha: alpha@ },
            ServerConnectionState::Connecting => StateV::Connecting,
            ServerConnectionState::Connected { c_id } => StateV::Connected { c_id: *c_id },
            ServerConnectionState::Disconnected => StateV::Disconnected,
        }
    }
}

pub open spec fn wf_state(s: StateV) -> bool {
    match s {
        StateV::Init0 { version, random0 } => random0.len() == 4,
        StateV::ClientInitIv { alpha } => alpha.len() == 10,
        _ => true,
    }
}

/// The data of one connection: its state, the one-shot listeners that
/// wait for the next transition, the negotiated parameters and the
/// round-trip bridge.
pub struct ServerConnectionData {
    pub state: ServerConnectionState,
    pub state_change_listener: Vec<u64>,
    pub params: Option<ConnectedParams>,
    pub rtt: RttEstimator,
}

#[verifier::ext_equal]
pub struct ConnV {
    pub state: StateV,
    pub listeners: Seq<u64>,
    pub params: Option<ParamsV>,
    pub rtt: RttEstimator,
}

impl View for ServerConnectionData {
    type V = ConnV;

    open spec fn view(&self) -> ConnV {
        ConnV {
            state: self.state@,
            listeners: self.state_change_listener@,
            params: match self.params {
                Some(ref p) => Some(p@),
                None => None,
            },
            rtt: self.rtt,
        }
    }
}

/// The parameters exist exactly from the key negotiation on: absent
/// through the init exchange, present in `Connecting` and `Connected`.
/// A `Disconnected` record still carries them for the instant before
/// the registry drops it.
pub open spec fn params_match_state(c: ConnV) -> bool {
    match c.state {
        StateV::Init0 { .. } => c.params is None,
        StateV::Init2 { .. } => c.params is None,
        StateV::ClientInitIv { .. } => c.params is None,
        StateV::Connecting => c.params is Some,
        StateV::Connected { .. } => c.params is Some,
        StateV::Disconnected => true,
    }
}

pub open spec fn wf_conn(c: ConnV) -> bool {
    &&& wf_state(c.state)
    &&& match c.params {
        Some(p) => wf_params(p),
        None => true,
    }
    &&& params_match_state(c)
}

/// The data of our client: the connection registry, the external send
/// queue's mirror, our public key (ASN.1 DER) and the listener id
/// counter.
pub struct ClientData {
    pub connections: Vec<(PeerAddr, ServerConnectionData)>,
    pub send_queue: Vec<SendRecord>,
    pub public_key_der: Vec<u8>,
    pub next_listener_id: u64,
}

/// What the registry holds for an address: the first entry with that
/// key, which well-formedness makes the only one.
pub open spec fn reg_lookup(s: Seq<(PeerAddr, ServerConnectionData)>, a: PeerAddr) -> Option<ConnV>
    decreases s.len(),
{
    if s.len() == 0 {
        None
    } else if s[0].0 == a {
        Some(s[0].1@)
    } else {
        reg_lookup(s.skip(1), a)
    }
}

pub open spec fn wf_registry(s: Seq<(PeerAddr, ServerConnectionData)>) -> bool {
    &&& forall|i: int, j: int|
        0 <= i < j < s.len() ==> (#[trigger] s[i]).0 != (#[trigger] s[j]).0
    &&& forall|i: int| 0 <= i < s.len() ==> wf_conn((#[trigger] s[i]).1@)
}

impl ClientData {
    pub open spec fn wf(&self) -> bool {
        wf_registry(self.connections@)
    }

    /// What the registry holds for an address.
    pub open spec fn conn_at(&self, a: PeerAddr) -> Option<ConnV> {
        reg_lookup(self.connections@, a)
    }

    pub fn new(public_key_der: Vec<u8>) -> (r: ClientData)
        ensures
            r.wf(),
            r.connections@.len() == 0,
            r.send_queue@.len() == 0,
            r.public_key_der@ == public_key_der@,
            r.next_listener_id == 0,
            forall|a: PeerAddr| r.conn_at(a) is None,
    {
        ClientData {
            connections: Vec::new(),
            send_queue: Vec::new(),
            public_key_der,
            next_listener_id: 0,
        }
    }

    /// Find the registry entry for an address.
    pub fn find_connection(&self, addr: PeerAddr) -> (r: Option<usize>)
        ensures
            match r {
                Some(i) => {
                    &&& i < self.connections@.len()
                    &&& self.connections@[i as int].0 == addr
                    &&& self.conn_at(addr) == Some(self.connections@[i as int].1@)
                    &&& forall|j: int| 0 <= j < i ==> self.connections@[j].0 != addr
                },
                None => self.conn_at(addr) is None,
            },
    {
        let ghost s = self.connections@;
        proof {
            assert(s.skip(0) =~= s);
        }
        let mut i: usize = 0;
        while i < self.connections.len()
            invariant
                0 <= i <= s.len(),
                s == self.connections@,
                reg_lookup(s, addr) == reg_lookup(s.skip(i as int), addr),
                forall|j: int| 0 <= j < i ==> s[j].0 != addr,
            decreases s.len() - i,
        {
            if self.connections[i].0 == addr {
                proof {
                    assert(s.skip(i as int)[0] == s[i as int]);
                }
                return Some(i);
            }
            proof {
                assert(s.skip(i as int)[0] == s[i as int]);
                assert(s.skip(i as int).skip(1) =~= s.skip(i as int + 1));
            }
            i += 1;
        }
        proof {
            assert(s.skip(i as int).len() == 0);
        }
        None
    }
}

/// Replacing the connection of an entry changes the lookup at that key
/// and no other.
pub proof fn lemma_reg_update(
    s: Seq<(PeerAddr, ServerConnectionData)>,
    i: int,
    c: ServerConnectionData,
    b: PeerAddr,
)
    requires
        0 <= i < s.len(),
        forall|k: int| 0 <= k < i ==> s[k].0 != s[i].0,
    ensures
        reg_lookup(s.update(i, (s[i].0, c)), b) == if b == s[i].0 {
            Some(c@)
        } else {
            reg_lookup(s, b)
        },
    decreases s.len(),
{
    let t = s.update(i, (s[i].0, c));
    if i == 0 {
        if b == s[0].0 {
        } else {
            assert(t.skip(1) =~= s.skip(1));
        }
    } else {
        assert(t[0] == s[0]);
        assert(s[0].0 != s[i].0);
        if b == s[0].0 {
        } else {
            assert(t.skip(1) =~= s.skip(1).update(i - 1, (s.skip(1)[i - 1].0, c)));
            assert(forall|k: int| 0 <= k < i - 1 ==> s.skip(1)[k] == s[k + 1]);
            lemma_reg_update(s.skip(1), i - 1, c, b);
        }
    }
}

/// Removing an entry empties the lookup at its key and no other.
pub proof fn lemma_reg_remove(s: Seq<(PeerAddr, ServerConnectionData)>, i: int, b: PeerAddr)
    requires
        0 <= i < s.len(),
        forall|k: int| 0 <= k < i ==> s[k].0 != s[i].0,
        forall|k: int| i < k < s.len() ==> s[k].0 != s[i].0,
    ensures
        reg_lookup(s.remove(i), b) == if b == s[i].0 {
            None
        } else {
            reg_lookup(s, b)
        },
    decreases s.len(),
{
    let t = s.remove(i);
    if i == 0 {
        assert(t =~= s.skip(1));
        if b == s[0].0 {
            lemma_reg_absent(s.skip(1), b);
        }
    } else {
        assert(t[0] == s[0]);
        assert(t.skip(1) =~= s.skip(1).remove(i - 1));
        assert(forall|k: int| 0 <= k < s.skip(1).len() ==> s.skip(1)[k] == s[k + 1]);
        if b == s[0].0 {
            assert(s[0].0 != s[i].0);
            lemma_reg_remove(s.skip(1), i - 1, b);
        } else {
            lemma_reg_remove(s.skip(1), i - 1, b);
        }
    }
}

/// A key that no entry carries looks up to nothing.
pub proof fn lemma_reg_absent(s: Seq<(PeerAddr, ServerConnectionData)>, b: PeerAddr)
    requires
        forall|k: int| 0 <= k < s.len() ==> (#[trigger] s[k]).0 != b,
    ensures
        reg_lookup(s, b) is None,
    decreases s.len(),
{
    if s.len() > 0 {
        assert(forall|k: int| 0 <= k < s.skip(1).len() ==> (#[trigger] s.skip(1)[k]) == s[k + 1]);
        lemma_reg_absent(s.skip(1), b);
    }
}

/// An empty lookup means no entry carries the key.
pub proof fn lemma_reg_none_absent(s: Seq<(PeerAddr, ServerConnectionData)>, b: PeerAddr)
    requires
        reg_lookup(s, b) is None,
    ensures
        forall|k: int| 0 <= k < s.len() ==> (#[trigger] s[k]).0 != b,
    decreases s.len(),
{
    if s.len() > 0 {
        lemma_reg_none_absent(s.skip(1), b);
        assert(forall|k: int| 0 <= k < s.skip(1).len() ==> (#[trigger] s.skip(1)[k]) == s[k + 1]);
        assert forall|k: int| 0 <= k < s.len() implies (#[trigger] s[k]).0 != b by {
            if k > 0 {
                assert(s[k] == s.skip(1)[k - 1]);
            }
        }
    }
}

/// Appending a fresh entry adds its key to the lookup and no other.
pub proof fn lemma_reg_push(
    s: Seq<(PeerAddr, ServerConnectionData)>,
    a: PeerAddr,
    c: ServerConnectionData,
    b: PeerAddr,
)
    ensures
        reg_lookup(s.push((a, c)), b) == if reg_lookup(s, b) is Some {
            reg_lookup(s, b)
        } else if b == a {
            Some(c@)
        } else {
            None::<ConnV>
        },
    decreases s.len(),
{
    if s.len() == 0 {
        reveal_with_fuel(reg_lookup, 3);
        assert(s.push((a, c))[0] == (a, c));
        assert(s.push((a, c)).skip(1) =~= Seq::<(PeerAddr, ServerConnectionData)>::empty());
    } else {
        assert(s.push((a, c))[0] == s[0]);
        assert(s.push((a, c)).skip(1) =~= s.skip(1).push((a, c)));
        lemma_reg_push(s.skip(1), a, c, b);
        if s[0].0 == b {
            assert(reg_lookup(s.push((a, c)), b) == Some(s[0].1@));
            assert(reg_lookup(s, b) == Some(s[0].1@));
        } else {
            assert(reg_lookup(s.push((a, c)), b) == reg_lookup(s.skip(1).push((a, c)), b));
            assert(reg_lookup(s, b) == reg_lookup(s.skip(1), b));
        }
    }
}

} // verus!
