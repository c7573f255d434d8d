use tsproto::client::{connect_with_entropy, wait_for_state, wait_until_connected, StatePred, WaitOutcome};
use tsproto::connection::{ClientData, PeerAddr, SendRecord, ServerConnectionState};
use tsproto::handler::{DefaultPacketHandlerStream, IvExpandData};
use tsproto::packets::{
    packet_type_to_index, ArgKey, CommandData, CommandName, OutData, Packet, PacketType,
};

fn peer() -> PeerAddr {
    PeerAddr { ip: 0x7f000001, port: 9987 }
}

fn new_data() -> ClientData {
    // An arbitrary ASN.1-DER public-key blob standing for our key.
    ClientData::new(vec![0x30, 0x82, 0x01, 0x0a, 0x02, 0x01])
}

/// `connect` with a mocked clock and nonce: the outbound `Init0` is
/// bit-exact and the registry holds the fresh connection.
#[test]
fn connect_builds_init0() {
    let mut data = new_data();
    let p = connect_with_entropy(&mut data, peer(), 1000000000, vec![0x01, 0x02, 0x03, 0x04]);
    assert_eq!(p.header.mac, b"TS3INIT1".to_vec());
    assert_eq!(p.header.p_id, 0x65);
    assert_eq!(p.header.c_id, Some(0));
    assert!(matches!(p.header.p_type, PacketType::Init));
    assert!(p.header.unencrypted);
    match p.data {
        OutData::Init0 { version, timestamp, random0 } => {
            assert_eq!(version, 1000000000);
            assert_eq!(timestamp, 1000000000);
            assert_eq!(random0, vec![0x01, 0x02, 0x03, 0x04]);
        },
        _ => panic!("expected Init0"),
    }
    assert_eq!(data.connections.len(), 1);
    match &data.connections[0].1.state {
        ServerConnectionState::Init0 { version, random0 } => {
            assert_eq!(*version, 1000000000);
            assert_eq!(random0, &vec![0x01, 0x02, 0x03, 0x04]);
        },
        _ => panic!("expected Init0 state"),
    }
}

/// `connect` with the real clock and nonce still draws a 4-byte nonce.
#[test]
fn connect_draws_four_random_bytes() {
    let mut data = new_data();
    let p = tsproto::client::connect(&mut data, peer());
    match p.data {
        OutData::Init0 { random0, .. } => assert_eq!(random0.len(), 4),
        _ => panic!("expected Init0"),
    }
}

/// A valid `Init1` echo advances to `Init2` and re-emits the server's
/// nonce material.
#[test]
fn init1_valid_advances() {
    let mut data = new_data();
    let _ = connect_with_entropy(&mut data, peer(), 1000000000, vec![0x01, 0x02, 0x03, 0x04]);
    let engine = DefaultPacketHandlerStream::new(true);
    let packet = Packet::Init1 {
        random1: vec![0xAA; 16],
        random0_r: vec![0x04, 0x03, 0x02, 0x01],
    };
    let out = engine.handle_packet(&mut data, peer(), &packet, 0, vec![0x11; 10]);
    assert!(!out.forward);
    assert!(!out.removed);
    let resp = out.response.expect("an Init2 response");
    assert_eq!(resp.header.mac, b"TS3INIT1".to_vec());
    match resp.data {
        OutData::Init2 { version, random1, random0_r } => {
            assert_eq!(version, 1000000000);
            assert_eq!(random1, vec![0xAA; 16]);
            assert_eq!(random0_r, vec![0x04, 0x03, 0x02, 0x01]);
        },
        _ => panic!("expected Init2"),
    }
    assert!(matches!(
        data.connections[0].1.state,
        ServerConnectionState::Init2 { version: 1000000000 }
    ));
}

/// An `Init1` echoing the nonce unreversed is rejected: no outbound,
/// state unchanged.
#[test]
fn init1_unreversed_rejected() {
    let mut data = new_data();
    let _ = connect_with_entropy(&mut data, peer(), 1000000000, vec![0x01, 0x02, 0x03, 0x04]);
    let engine = DefaultPacketHandlerStream::new(true);
    let packet = Packet::Init1 {
        random1: vec![0xAA; 16],
        random0_r: vec![0x01, 0x02, 0x03, 0x04],
    };
    let out = engine.handle_packet(&mut data, peer(), &packet, 0, vec![0x11; 10]);
    assert!(out.response.is_none());
    assert!(out.forward);
    assert!(out.fired.is_empty());
    assert!(matches!(
        data.connections[0].1.state,
        ServerConnectionState::Init0 { .. }
    ));
}

fn wide(bytes: &[u8], width: usize) -> Vec<u8> {
    let mut v = vec![0u8; width - bytes.len()];
    v.extend_from_slice(bytes);
    v
}

/// The proof-of-work step: x=2, n=5, level=3 gives y = 2^8 mod 5 = 1,
/// encoded at the 64-byte width, and the `clientinitiv` command carries
/// base64 of alpha and omega.
#[test]
fn init3_solves_puzzle() {
    let mut data = new_data();
    let _ = connect_with_entropy(&mut data, peer(), 1000000000, vec![0x01, 0x02, 0x03, 0x04]);
    let engine = DefaultPacketHandlerStream::new(true);
    let init1 = Packet::Init1 {
        random1: vec![0xAA; 16],
        random0_r: vec![0x04, 0x03, 0x02, 0x01],
    };
    let _ = engine.handle_packet(&mut data, peer(), &init1, 0, vec![0x11; 10]);
    let init3 = Packet::Init3 {
        x: wide(&[2], 64),
        n: wide(&[5], 64),
        level: 3,
        random2: vec![0; 100],
    };
    let out = engine.handle_packet(&mut data, peer(), &init3, 0, vec![0x11; 10]);
    let resp = out.response.expect("an Init4 response");
    match resp.data {
        OutData::Init4 { version, x, n, level, random2, y, command } => {
            assert_eq!(version, 1000000000);
            assert_eq!(x, wide(&[2], 64));
            assert_eq!(n, wide(&[5], 64));
            assert_eq!(level, 3);
            assert_eq!(random2, vec![0; 100]);
            assert_eq!(y, wide(&[1], 64));
            assert!(matches!(command.name, CommandName::ClientInitIv));
            // base64 of ten 0x11 bytes
            assert_eq!(command.args[0].0, ArgKey::Alpha);
            assert_eq!(command.args[0].1, b"EREREREREREREQ==".to_vec());
            assert_eq!(command.args[1].0, ArgKey::Omega);
            assert_eq!(command.args[1].1, base64::encode(&data.public_key_der).into_bytes());
            assert_eq!(command.args[2].0, ArgKey::Ot);
            assert_eq!(command.args[2].1, b"1".to_vec());
            assert_eq!(command.args[3].0, ArgKey::Ip);
            assert_eq!(command.args[3].1, Vec::<u8>::new());
        },
        _ => panic!("expected Init4"),
    }
    match &data.connections[0].1.state {
        ServerConnectionState::ClientInitIv { alpha } => assert_eq!(alpha, &vec![0x11; 10]),
        _ => panic!("expected ClientInitIv state"),
    }
}

fn ivexpand_cmd(alpha_b64: &[u8], beta_b64: &[u8], omega_b64: &[u8]) -> CommandData {
    CommandData {
        name: CommandName::InitIvExpand,
        args: vec![
            (ArgKey::Alpha, alpha_b64.to_vec()),
            (ArgKey::Beta, beta_b64.to_vec()),
            (ArgKey::Omega, omega_b64.to_vec()),
        ],
    }
}

fn data_in_iv_state() -> ClientData {
    let mut data = new_data();
    let _ = connect_with_entropy(&mut data, peer(), 1000000000, vec![0x01, 0x02, 0x03, 0x04]);
    let engine = DefaultPacketHandlerStream::new(true);
    let init1 = Packet::Init1 {
        random1: vec![0xAA; 16],
        random0_r: vec![0x04, 0x03, 0x02, 0x01],
    };
    let _ = engine.handle_packet(&mut data, peer(), &init1, 0, vec![0x11; 10]);
    let init3 = Packet::Init3 {
        x: wide(&[2], 64),
        n: wide(&[5], 64),
        level: 3,
        random2: vec![0; 100],
    };
    let _ = engine.handle_packet(&mut data, peer(), &init3, 0, vec![0x11; 10]);
    data
}

/// A valid `initivexpand` hands out the decoded shares; `apply_iv_mac`
/// then reaches `Connecting` with the seeded counters.
#[test]
fn initivexpand_reaches_connecting() {
    let mut data = data_in_iv_state();
    let engine = DefaultPacketHandlerStream::new(true);
    let omega = vec![0x30, 0x59, 0x30, 0x13];
    let cmd = ivexpand_cmd(
        b"EREREREREREREQ==",
        base64::encode(&[0x22u8; 10]).as_bytes(),
        base64::encode(&omega).as_bytes(),
    );
    let out = engine.handle_packet(&mut data, peer(), &Packet::Command(cmd), 0, vec![0x33; 10]);
    assert!(!out.forward);
    let exp = out.need_iv_mac.expect("the decoded shares");
    assert_eq!(exp.alpha, vec![0x11; 10]);
    assert_eq!(exp.beta, vec![0x22; 10]);
    assert_eq!(exp.server_key, omega);
    // still awaiting the derived material
    assert!(matches!(
        data.connections[0].1.state,
        ServerConnectionState::ClientInitIv { .. }
    ));
    let fired = engine.apply_iv_mac(&mut data, peer(), exp, vec![0x44; 20], vec![0x55; 8]);
    assert!(fired.is_empty());
    assert!(matches!(
        data.connections[0].1.state,
        ServerConnectionState::Connecting
    ));
    let params = data.connections[0].1.params.as_ref().expect("params");
    assert_eq!(params.c_id, 0);
    assert_eq!(params.server_key, omega);
    assert_eq!(params.shared_iv, vec![0x44; 20]);
    assert_eq!(params.shared_mac, vec![0x55; 8]);
    let ci = packet_type_to_index(PacketType::Command);
    let ai = packet_type_to_index(PacketType::Ack);
    assert_eq!(params.outgoing_p_ids[ci], (0, 1));
    assert_eq!(params.incoming_p_ids[ci], (0, 1));
    assert_eq!(params.incoming_p_ids[ai], (0, 1));
    assert_eq!(params.outgoing_p_ids[ai], (0, 0));
}

/// An `initivexpand` echoing a wrong alpha is rejected.
#[test]
fn initivexpand_wrong_alpha_rejected() {
    let mut data = data_in_iv_state();
    let engine = DefaultPacketHandlerStream::new(true);
    let cmd = ivexpand_cmd(
        base64::encode(&[0x99u8; 10]).as_bytes(),
        base64::encode(&[0x22u8; 10]).as_bytes(),
        base64::encode(&[0x30u8, 0x59]).as_bytes(),
    );
    let out = engine.handle_packet(&mut data, peer(), &Packet::Command(cmd), 0, vec![0x33; 10]);
    assert!(out.need_iv_mac.is_none());
    assert!(out.forward);
    assert!(matches!(
        data.connections[0].1.state,
        ServerConnectionState::ClientInitIv { .. }
    ));
}

/// `beta` lengths 9 and 11 are rejected; only 10 is accepted.
#[test]
fn beta_length_boundary() {
    let engine = DefaultPacketHandlerStream::new(true);
    for (len, ok) in [(9usize, false), (10, true), (11, false)] {
        let mut data = data_in_iv_state();
        let cmd = ivexpand_cmd(
            b"EREREREREREREQ==",
            base64::encode(&vec![0x22u8; len]).as_bytes(),
            base64::encode(&[0x30u8, 0x59]).as_bytes(),
        );
        let out =
            engine.handle_packet(&mut data, peer(), &Packet::Command(cmd), 0, vec![0x33; 10]);
        assert_eq!(out.need_iv_mac.is_some(), ok, "beta length {}", len);
    }
}

fn data_connecting() -> (ClientData, DefaultPacketHandlerStream) {
    let mut data = data_in_iv_state();
    let engine = DefaultPacketHandlerStream::new(true);
    let cmd = ivexpand_cmd(
        b"EREREREREREREQ==",
        base64::encode(&[0x22u8; 10]).as_bytes(),
        base64::encode(&[0x30u8, 0x59]).as_bytes(),
    );
    let out = engine.handle_packet(&mut data, peer(), &Packet::Command(cmd), 0, vec![0x33; 10]);
    let exp = out.need_iv_mac.unwrap();
    let _ = engine.apply_iv_mac(&mut data, peer(), exp, vec![0x44; 20], vec![0x55; 8]);
    (data, engine)
}

/// `initserver` assigns the client id, withdraws the `clientinit`
/// entry and feeds the 100 ms round-trip sample of a first-try send.
#[test]
fn initserver_connects_and_updates_rtt() {
    let (mut data, engine) = data_connecting();
    let t: u64 = 5_000_000;
    data.send_queue.push(SendRecord {
        p_type: PacketType::Command,
        p_id: 1,
        tries: 1,
        sent_at_ms: t - 100,
    });
    let cmd = CommandData {
        name: CommandName::InitServer,
        args: vec![(ArgKey::Aclid, b"42".to_vec())],
    };
    let out = engine.handle_packet(&mut data, peer(), &Packet::Command(cmd), t, vec![0x33; 10]);
    assert!(out.forward);
    assert!(matches!(
        data.connections[0].1.state,
        ServerConnectionState::Connected { c_id: 42 }
    ));
    assert_eq!(data.connections[0].1.params.as_ref().unwrap().c_id, 42);
    assert!(data.send_queue.is_empty());
    assert_eq!(data.connections[0].1.rtt.last_sample_ms, 100);
    assert_eq!(data.connections[0].1.rtt.samples, 1);
}

/// `initserver` with a malformed `aclid` is silently ignored: no
/// transition, queue untouched.
#[test]
fn initserver_malformed_aclid_ignored() {
    let (mut data, engine) = data_connecting();
    data.send_queue.push(SendRecord {
        p_type: PacketType::Command,
        p_id: 1,
        tries: 1,
        sent_at_ms: 1,
    });
    let cmd = CommandData {
        name: CommandName::InitServer,
        args: vec![(ArgKey::Aclid, b"abc".to_vec())],
    };
    let out = engine.handle_packet(&mut data, peer(), &Packet::Command(cmd), 0, vec![0x33; 10]);
    assert!(matches!(
        data.connections[0].1.state,
        ServerConnectionState::Connecting
    ));
    assert!(out.fired.is_empty());
    assert_eq!(data.send_queue.len(), 1);
}

/// A retransmitted `clientinit` entry (tries = 2) is withdrawn without
/// feeding a sample.
#[test]
fn initserver_no_rtt_after_retransmit() {
    let (mut data, engine) = data_connecting();
    let t: u64 = 5_000_000;
    data.send_queue.push(SendRecord {
        p_type: PacketType::Command,
        p_id: 1,
        tries: 2,
        sent_at_ms: t - 100,
    });
    let cmd = CommandData {
        name: CommandName::InitServer,
        args: vec![(ArgKey::Aclid, b"42".to_vec())],
    };
    let _ = engine.handle_packet(&mut data, peer(), &Packet::Command(cmd), t, vec![0x33; 10]);
    assert!(data.send_queue.is_empty());
    assert_eq!(data.connections[0].1.rtt.samples, 0);
}

/// Unrelated queue entries survive the withdrawal in order.
#[test]
fn initserver_keeps_other_queue_entries() {
    let (mut data, engine) = data_connecting();
    let other1 = SendRecord { p_type: PacketType::Ping, p_id: 1, tries: 1, sent_at_ms: 1 };
    let clientinit = SendRecord { p_type: PacketType::Command, p_id: 1, tries: 1, sent_at_ms: 2 };
    let other2 = SendRecord { p_type: PacketType::Command, p_id: 2, tries: 1, sent_at_ms: 3 };
    data.send_queue.push(other1);
    data.send_queue.push(clientinit);
    data.send_queue.push(other2);
    let cmd = CommandData {
        name: CommandName::InitServer,
        args: vec![(ArgKey::Aclid, b"42".to_vec())],
    };
    let _ = engine.handle_packet(&mut data, peer(), &Packet::Command(cmd), 10, vec![0x33; 10]);
    assert_eq!(data.send_queue, vec![other1, other2]);
}

fn data_connected() -> (ClientData, DefaultPacketHandlerStream) {
    let (mut data, engine) = data_connecting();
    let cmd = CommandData {
        name: CommandName::InitServer,
        args: vec![(ArgKey::Aclid, b"42".to_vec())],
    };
    let _ = engine.handle_packet(&mut data, peer(), &Packet::Command(cmd), 0, vec![0x33; 10]);
    (data, engine)
}

/// `notifyclientleftview` for our own client id removes the connection.
#[test]
fn leftview_for_our_id_removes_connection() {
    let (mut data, engine) = data_connected();
    let cmd = CommandData {
        name: CommandName::NotifyClientLeftView,
        args: vec![(ArgKey::Clid, b"42".to_vec())],
    };
    let out = engine.handle_packet(&mut data, peer(), &Packet::Command(cmd), 0, vec![0x33; 10]);
    assert!(out.removed);
    assert!(out.forward);
    assert!(data.connections.is_empty());
}

/// `notifyclientleftview` for another client id is ignored.
#[test]
fn leftview_for_other_id_ignored() {
    let (mut data, engine) = data_connected();
    let cmd = CommandData {
        name: CommandName::NotifyClientLeftView,
        args: vec![(ArgKey::Clid, b"43".to_vec())],
    };
    let out = engine.handle_packet(&mut data, peer(), &Packet::Command(cmd), 0, vec![0x33; 10]);
    assert!(!out.removed);
    assert_eq!(data.connections.len(), 1);
}

/// Listeners registered by a wait are drained exactly once, at the
/// next transition, and observe the new state.
#[test]
fn listeners_fire_on_transition() {
    let mut data = new_data();
    let _ = connect_with_entropy(&mut data, peer(), 1000000000, vec![0x01, 0x02, 0x03, 0x04]);
    let pred = StatePred {
        init0: false,
        init2: true,
        client_init_iv: false,
        connecting: false,
        connected: false,
        disconnected: false,
    };
    let token = match wait_for_state(&mut data, peer(), &pred) {
        WaitOutcome::Waiting(t) => t,
        WaitOutcome::Ready => panic!("must wait in Init0"),
    };
    let engine = DefaultPacketHandlerStream::new(true);
    let packet = Packet::Init1 {
        random1: vec![0xAA; 16],
        random0_r: vec![0x04, 0x03, 0x02, 0x01],
    };
    let out = engine.handle_packet(&mut data, peer(), &packet, 0, vec![0x11; 10]);
    assert_eq!(out.fired, vec![token]);
    // the listener observes the already-updated state
    assert!(matches!(
        data.connections[0].1.state,
        ServerConnectionState::Init2 { .. }
    ));
    assert!(data.connections[0].1.state_change_listener.is_empty());
    // re-evaluating now resolves
    assert!(matches!(wait_for_state(&mut data, peer(), &pred), WaitOutcome::Ready));
}

/// Waits on an absent connection resolve at once; `wait_until_connected`
/// resolves only in `Connected`.
#[test]
fn wait_semantics() {
    let mut data = new_data();
    assert!(matches!(wait_until_connected(&mut data, peer()), WaitOutcome::Ready));
    let _ = connect_with_entropy(&mut data, peer(), 1000000000, vec![0x01, 0x02, 0x03, 0x04]);
    assert!(matches!(wait_until_connected(&mut data, peer()), WaitOutcome::Waiting(_)));
    let connecting = StatePred::connecting_only();
    assert!(matches!(wait_for_state(&mut data, peer(), &connecting), WaitOutcome::Waiting(_)));
    let (mut data, _) = data_connecting();
    assert!(matches!(wait_for_state(&mut data, peer(), &connecting), WaitOutcome::Ready));
    let (mut data, _) = data_connected();
    assert!(matches!(wait_until_connected(&mut data, peer()), WaitOutcome::Ready));
}

/// A packet for a peer without a connection flows through untouched.
#[test]
fn unknown_peer_forwards() {
    let mut data = new_data();
    let engine = DefaultPacketHandlerStream::new(true);
    let out = engine.handle_packet(
        &mut data,
        peer(),
        &Packet::Command(CommandData { name: CommandName::Other, args: vec![] }),
        0,
        vec![0x11; 10],
    );
    assert!(out.forward);
    assert!(out.response.is_none());
}

/// In `Disconnected` every packet is dropped without a transition.
#[test]
fn disconnected_drops_packets() {
    let mut data = new_data();
    let _ = connect_with_entropy(&mut data, peer(), 1000000000, vec![0x01, 0x02, 0x03, 0x04]);
    data.connections[0].1.state = ServerConnectionState::Disconnected;
    let engine = DefaultPacketHandlerStream::new(true);
    let packet = Packet::Init1 {
        random1: vec![0xAA; 16],
        random0_r: vec![0x04, 0x03, 0x02, 0x01],
    };
    let out = engine.handle_packet(&mut data, peer(), &packet, 0, vec![0x11; 10]);
    assert!(!out.forward);
    assert!(out.response.is_none());
    assert!(matches!(
        data.connections[0].1.state,
        ServerConnectionState::Disconnected
    ));
}
