//! The public entry points: `connect` installs a connection and builds
//! the opening `Init0` packet; `wait_for_state` and
//! `wait_until_connected` either resolve at once or register a
//! one-shot listener that the engine fires on the next transition.

use vstd::prelude::*;
use crate::connection::{
    reg_lookup, wf_registry, ClientData, ConnV, PeerAddr, RttEstimator, ServerConnectionData,
    ServerConnectionState, StateV,
};
use crate::entropy::{now_unix_secs, random_bytes};
use crate::handler::{lemma_reg_update_all};
use crate::packets::{create_init_header, init_header, OutData, OutDataV, OutPacket, OutPacketV};

verus! {

/// A predicate over the connection states, as the waiters phrase what
/// they wait for.
#[derive(Clone, Copy, PartialEq, Eq, Structural, Debug)]
pub struct StatePred {
    pub init0: bool,
    pub init2: bool,
    pub client_init_iv: bool,
    pub connecting: bool,
    pub connected: bool,
    pub disconnected: bool,
}

impl StatePred {
    pub open spec fn holds_on(&self, s: StateV) -> bool {
        match s {
            StateV::Init0 { .. } => self.init0,
            StateV::Init2 { .. } => self.init2,
            StateV::ClientInitIv { .. } => self.client_init_iv,
            StateV::Connecting => self.connecting,
            StateV::Connected { .. } => self.connected,
            StateV::Disconnected => self.disconnected,
        }
    }

    pub fn eval(&self, s: &ServerConnectionState) -> (r: bool)
        ensures
            r == self.holds_on(s@),
    {
        match s {
            ServerConnectionState::Init0 { .. } => self.init0,
            ServerConnectionState::Init2 { .. } => self.init2,
            ServerConnectionState::ClientInitIv { .. } => self.client_init_iv,
            ServerConnectionState::Connecting => self.connecting,
            ServerConnectionState::Connected { .. } => self.connected,
            ServerConnectionState::Disconnected => self.disconnected,
        }
    }

    /// The predicate `wait_until_connected` waits for.
    pub fn connected_only() -> (r: StatePred)
        ensures
            forall|s: StateV| r.holds_on(s) == (s is Connected),
    {
        StatePred {
            init0: false,
            init2: false,
            client_init_iv: false,
            connecting: false,
            connected: true,
            disconnected: false,
        }
    }

    /// The predicate `connect` waits for.
    pub fn connecting_only() -> (r: StatePred)
        ensures
            forall|s: StateV| r.holds_on(s) == (s is Connecting),
    {
        StatePred {
            init0: false,
            init2: false,
            client_init_iv: false,
            connecting: true,
            connected: false,
            disconnected: false,
        }
    }
}

/// How a wait resolves: at once, or on the listener with the returned
/// token, which the engine hands back through `HandleOutput::fired` at
/// the next transition.
pub enum WaitOutcome {
    Ready,
    Waiting(u64),
}

/// Wait until a connection reaches a state the predicate accepts.  An
/// absent connection counts as reached; otherwise the wait either
/// resolves now or registers a one-shot listener for the next
/// transition, after which the caller evaluates again.
pub fn wait_for_state(data: &mut ClientData, server_addr: PeerAddr, f: &StatePred) -> (r:
    WaitOutcome)
    requires
        old(data).wf(),
        old(data).next_listener_id < u64::MAX,
    ensures
        final(data).wf(),
        final(data).send_queue@ == old(data).send_queue@,
        final(data).public_key_der@ == old(data).public_key_der@,
        match old(data).conn_at(server_addr) {
            None => *final(data) == *old(data) && r is Ready,
            Some(conn0) => if f.holds_on(conn0.state) {
                *final(data) == *old(data) && r is Ready
            } else {
                &&& r == WaitOutcome::Waiting(old(data).next_listener_id)
                &&& final(data).next_listener_id == old(data).next_listener_id + 1
                &&& final(data).conn_at(server_addr) == Some(
                    ConnV {
                        state: conn0.state,
                        listeners: conn0.listeners.push(old(data).next_listener_id),
                        params: conn0.params,
                        rtt: conn0.rtt,
                    },
                )
                &&& forall|b: PeerAddr|
                    b != server_addr ==> final(data).conn_at(b) == old(data).conn_at(b)
            },
        },
{
    let idx = match data.find_connection(server_addr) {
        Some(i) => i,
        None => {
            return WaitOutcome::Ready;
        },
    };
    if f.eval(&data.connections[idx].1.state) {
        return WaitOutcome::Ready;
    }
    let ghost s0 = data.connections@;
    let token = data.next_listener_id;
    data.next_listener_id = token + 1;
    let (caddr, mut conn) = data.connections.remove(idx);
    let ghost conn0 = conn@;
    conn.state_change_listener.push(token);
    data.connections.insert(idx, (caddr, conn));
    proof {
        assert(conn@ =~= (ConnV {
            state: conn0.state,
            listeners: conn0.listeners.push(token),
            params: conn0.params,
            rtt: conn0.rtt,
        }));
        assert(data.connections@ =~= s0.update(idx as int, (server_addr, conn)));
        lemma_reg_update_all(s0, idx as int, conn, server_addr);
    }
    WaitOutcome::Waiting(token)
}

/// Wait until the connection is fully connected.
pub fn wait_until_connected(data: &mut ClientData, server_addr: PeerAddr) -> (r: WaitOutcome)
    requires
        old(data).wf(),
        old(data).next_listener_id < u64::MAX,
    ensures
        final(data).wf(),
        final(data).send_queue@ == old(data).send_queue@,
        final(data).public_key_der@ == old(data).public_key_der@,
        match old(data).conn_at(server_addr) {
            None => *final(data) == *old(data) && r is Ready,
            Some(conn0) => if conn0.state is Connected {
                *final(data) == *old(data) && r is Ready
            } else {
                &&& r == WaitOutcome::Waiting(old(data).next_listener_id)
                &&& final(data).next_listener_id == old(data).next_listener_id + 1
                &&& final(data).conn_at(server_addr) == Some(
                    ConnV {
                        state: conn0.state,
                        listeners: conn0.listeners.push(old(data).next_listener_id),
                        params: conn0.params,
                        rtt: conn0.rtt,
                    },
                )
                &&& forall|b: PeerAddr|
                    b != server_addr ==> final(data).conn_at(b) == old(data).conn_at(b)
            },
        },
{
    let pred = StatePred::connected_only();
    wait_for_state(data, server_addr, &pred)
}

/// The `Init0` packet `connect` emits: the timestamp doubles as the
/// version field, under the literal init header.
pub open spec fn init0_packet(timestamp: u32, random0: Seq<u8>) -> OutPacketV {
    OutPacketV {
        header: init_header(),
        data: OutDataV::Init0 { version: timestamp, timestamp: timestamp, random0: random0 },
    }
}

/// The fresh connection record `connect` installs.
pub open spec fn fresh_connection(timestamp: u32, random0: Seq<u8>) -> ConnV {
    ConnV {
        state: StateV::Init0 { version: timestamp, random0: random0 },
        listeners: Seq::empty(),
        params: None,
        rtt: RttEstimator { last_sample_ms: 0, samples: 0 },
    }
}

/// Install a connection for the peer and build the opening `Init0`
/// packet from the given clock reading and nonce.  The registry entry
/// is in place before the packet is handed back, so the response
/// cannot race the insert.  An existing entry for the peer is replaced.
pub fn connect_with_entropy(
    data: &mut ClientData,
    server_addr: PeerAddr,
    timestamp: u32,
    random0: Vec<u8>,
) -> (p: OutPacket)
    requires
        old(data).wf(),
        random0@.len() == 4,
    ensures
        final(data).wf(),
        p@ == init0_packet(timestamp, random0@),
        final(data).conn_at(server_addr) == Some(fresh_connection(timestamp, random0@)),
        forall|b: PeerAddr| b != server_addr ==> final(data).conn_at(b) == old(data).conn_at(b),
        final(data).send_queue@ == old(data).send_queue@,
        final(data).public_key_der@ == old(data).public_key_der@,
        final(data).next_listener_id == old(data).next_listener_id,
{
    let conn = ServerConnectionData {
        state: ServerConnectionState::Init0 { version: timestamp, random0: crate::handler::clone_bytes(&random0) },
        state_change_listener: Vec::new(),
        params: None,
        rtt: RttEstimator::new(),
    };
    proof {
        assert(conn@ =~= fresh_connection(timestamp, random0@));
    }
    let ghost s0 = data.connections@;
    match data.find_connection(server_addr) {
        Some(idx) => {
            let _old_entry = data.connections.remove(idx);
            data.connections.insert(idx, (server_addr, conn));
            proof {
                assert(data.connections@ =~= s0.update(idx as int, (server_addr, conn)));
                lemma_reg_update_all(s0, idx as int, conn, server_addr);
            }
        },
        None => {
            proof {
                crate::connection::lemma_reg_none_absent(s0, server_addr);
            }
            data.connections.push((server_addr, conn));
            proof {
                crate::connection::lemma_reg_push(s0, server_addr, conn, server_addr);
                assert forall|b: PeerAddr|
                    b != server_addr implies reg_lookup(data.connections@, b) == reg_lookup(
                    s0,
                    b,
                ) by {
                    crate::connection::lemma_reg_push(s0, server_addr, conn, b);
                }
                assert(forall|k: int|
                    0 <= k < data.connections@.len() - 1 ==> data.connections@[k] == s0[k]);
                assert(wf_registry(data.connections@));
            }
        },
    }
    let ghost r0 = random0@;
    let packet = OutPacket {
        header: create_init_header(),
        data: OutData::Init0 { version: timestamp, timestamp: timestamp, random0 },
    };
    proof {
        assert(packet@ =~= init0_packet(timestamp, r0));
    }
    packet
}

/// Connect to a server: read the clock, draw the nonce, install the
/// connection and build the `Init0` packet for the caller to send.
/// The caller then drives inbound packets through the engine, sends
/// `clientinit` once the state reaches `Connecting`, and waits with
/// `wait_until_connected`.
pub fn connect(data: &mut ClientData, server_addr: PeerAddr) -> (p: OutPacket)
    requires
        old(data).wf(),
    ensures
        final(data).wf(),
        p@.data matches OutDataV::Init0 { version, timestamp, random0 } && version == timestamp
            && random0.len() == 4 && p@.header == init_header() && final(data).conn_at(server_addr)
            == Some(fresh_connection(timestamp, random0)),
        forall|b: PeerAddr| b != server_addr ==> final(data).conn_at(b) == old(data).conn_at(b),
        final(data).send_queue@ == old(data).send_queue@,
        final(data).public_key_der@ == old(data).public_key_der@,
        final(data).next_listener_id == old(data).next_listener_id,
{
    let timestamp = now_unix_secs();
    let random0 = random_bytes(4);
    connect_with_entropy(data, server_addr, timestamp, random0)
}

} // verus!
