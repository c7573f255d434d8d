//! The handshake engine: the inbound-packet-driven transition function.
//! Every step validates the packet against the current state, emits at
//! most one response, drains the state-change listeners once and keeps
//! the registry and the send-queue mirror in shape.
//!
//! `hs_next` is the transition in specification form; `handle_packet`
//! is proved to follow it.  The `initivexpand` step needs key material
//! that only the external ECC primitives can derive, so it is split:
//! `handle_packet` validates and hands out the decoded shares, and
//! `apply_iv_mac` finishes the transition for whatever material the
//! caller derived.

use vstd::prelude::*;
use crate::algorithms::{be_val, nat_to_be, rsa_puzzle_val};
use crate::b64::{b64_decode, b64_decoding};
use crate::connection::{
    initial_params, reg_lookup, wf_conn, wf_params, wf_registry, wf_state, lemma_reg_remove,
    lemma_reg_update, ClientData, ConnV, ConnectedParams, ParamsV, PeerAddr, RttEstimator,
    SendRecord, ServerConnectionData, ServerConnectionState, StateV,
};
use crate::packets::{
    build_clientinitiv, clientinitiv_command, create_init_header, find_arg, first_arg,
    init_header, is_reversed,
    parse_u16, parse_u16_v, wf_packet, ArgKey, CommandData, CommandName, CommandV, OutData,
    OutDataV, OutPacket, OutPacketV, Packet, PacketType, PacketV,
};
use crate::algorithms::solve_rsa_puzzle;

verus! {

/// What a valid `initivexpand` hands the key-agreement step: our alpha
/// share, the server's beta share and the server's public key, DER.
pub struct IvExpandData {
    pub alpha: Vec<u8>,
    pub beta: Vec<u8>,
    pub server_key: Vec<u8>,
}

#[verifier::ext_equal]
pub struct IvExpandV {
    pub alpha: Seq<u8>,
    pub beta: Seq<u8>,
    pub server_key: Seq<u8>,
}

impl View for IvExpandData {
    type V = IvExpandV;

    open spec fn view(&self) -> IvExpandV {
        IvExpandV { alpha: self.alpha@, beta: self.beta@, server_key: self.server_key@ }
    }
}

/// One engine step in specification form.
#[verifier::ext_equal]
pub struct StepV {
    /// The state after the step.
    pub state: StateV,
    /// The crypto parameters after the step.
    pub params: Option<ParamsV>,
    /// The send queue after the step.
    pub queue: Seq<SendRecord>,
    /// The round-trip sample fed to the estimator, if any.
    pub rtt_sample: Option<u64>,
    /// The response the engine emits, if any.
    pub response: Option<OutPacketV>,
    /// Whether a transition happened; listeners are drained exactly then.
    pub accepted: bool,
    /// Whether the inbound packet flows on downstream.
    pub forward: bool,
    /// Whether the connection leaves the registry.
    pub remove: bool,
    /// The decoded shares of a valid `initivexpand`, awaiting the
    /// externally derived key material.
    pub need_iv_mac: Option<IvExpandV>,
}

/// A step that rejects or ignores the packet: nothing changes.
pub open spec fn no_step(conn: ConnV, queue: Seq<SendRecord>, forward: bool) -> StepV {
    StepV {
        state: conn.state,
        params: conn.params,
        queue: queue,
        rtt_sample: None,
        response: None,
        accepted: false,
        forward: forward,
        remove: false,
        need_iv_mac: None,
    }
}

/// The `initivexpand` checks: the right command, all three arguments
/// present, `alpha` echoing our share, `beta` decoding to exactly 10
/// bytes, `omega` decoding at all.
pub open spec fn ivexpand_valid(cmd: CommandV, alpha: Seq<u8>) -> bool {
    &&& cmd.name == CommandName::InitIvExpand
    &&& first_arg(cmd.args, ArgKey::Alpha) is Some
    &&& b64_decoding(first_arg(cmd.args, ArgKey::Alpha).unwrap()) == Some(alpha)
    &&& first_arg(cmd.args, ArgKey::Beta) is Some
    &&& b64_decoding(first_arg(cmd.args, ArgKey::Beta).unwrap()) is Some
    &&& b64_decoding(first_arg(cmd.args, ArgKey::Beta).unwrap()).unwrap().len() == 10
    &&& first_arg(cmd.args, ArgKey::Omega) is Some
    &&& b64_decoding(first_arg(cmd.args, ArgKey::Omega).unwrap()) is Some
}

pub open spec fn ivexpand_beta(cmd: CommandV) -> Seq<u8> {
    b64_decoding(first_arg(cmd.args, ArgKey::Beta).unwrap()).unwrap()
}

pub open spec fn ivexpand_omega(cmd: CommandV) -> Seq<u8> {
    b64_decoding(first_arg(cmd.args, ArgKey::Omega).unwrap()).unwrap()
}

/// Whether a send-queue record is the pending `clientinit` entry:
/// a `Command` packet with id 1.
pub open spec fn is_clientinit_rec(r: SendRecord) -> bool {
    r.p_type == PacketType::Command && r.p_id == 1
}

/// The queue after the `initserver` withdrawal: every `clientinit`
/// entry removed, the order of the rest preserved.
pub open spec fn queue_kept(q: Seq<SendRecord>) -> Seq<SendRecord>
    decreases q.len(),
{
    if q.len() == 0 {
        Seq::empty()
    } else if is_clientinit_rec(q.last()) {
        queue_kept(q.drop_last())
    } else {
        queue_kept(q.drop_last()).push(q.last())
    }
}

/// The withdrawn record: the last matching entry, as a single forward
/// drain pass collects it.
pub open spec fn withdrawn(q: Seq<SendRecord>) -> Option<SendRecord>
    decreases q.len(),
{
    if q.len() == 0 {
        None
    } else if is_clientinit_rec(q.last()) {
        Some(q.last())
    } else {
        withdrawn(q.drop_last())
    }
}

pub open spec fn sat_sub(a: u64, b: u64) -> u64 {
    if a >= b {
        (a - b) as u64
    } else {
        0
    }
}

/// The round-trip sample of an `initserver` step: only when the
/// withdrawn `clientinit` entry was sent exactly once.
pub open spec fn initserver_rtt(q: Seq<SendRecord>, now_ms: u64) -> Option<u64> {
    match withdrawn(q) {
        Some(r) => if r.tries == 1 {
            Some(sat_sub(now_ms, r.sent_at_ms))
        } else {
            None
        },
        None => None,
    }
}

pub open spec fn params_with_cid(params: Option<ParamsV>, cid: u16) -> Option<ParamsV> {
    match params {
        Some(p) => Some(
            ParamsV {
                c_id: cid,
                server_key: p.server_key,
                shared_iv: p.shared_iv,
                shared_mac: p.shared_mac,
                outgoing_p_ids: p.outgoing_p_ids,
                incoming_p_ids: p.incoming_p_ids,
            },
        ),
        None => None,
    }
}

/// The `initserver` checks and effects, from the `Connecting` state.
/// An `aclid` that is missing or does not read as a 16-bit id leaves
/// the packet ignored: no transition.
pub open spec fn step_initserver(
    conn: ConnV,
    cmd: CommandV,
    queue: Seq<SendRecord>,
    now_ms: u64,
) -> StepV {
    if cmd.name == CommandName::InitServer && first_arg(cmd.args, ArgKey::Aclid) is Some
        && parse_u16_v(first_arg(cmd.args, ArgKey::Aclid).unwrap()) is Some {
        let cid = parse_u16_v(first_arg(cmd.args, ArgKey::Aclid).unwrap()).unwrap();
        StepV {
            state: StateV::Connected { c_id: cid },
            params: params_with_cid(conn.params, cid),
            queue: queue_kept(queue),
            rtt_sample: initserver_rtt(queue, now_ms),
            response: None,
            accepted: true,
            forward: true,
            remove: false,
            need_iv_mac: None,
        }
    } else {
        no_step(conn, queue, true)
    }
}

/// The `notifyclientleftview` checks and effects, from the `Connected`
/// state: only our own client id tears the connection down.
pub open spec fn step_leftview(conn: ConnV, cmd: CommandV, queue: Seq<SendRecord>) -> StepV {
    if cmd.name == CommandName::NotifyClientLeftView && first_arg(cmd.args, ArgKey::Clid) is Some
        && conn.params is Some && parse_u16_v(first_arg(cmd.args, ArgKey::Clid).unwrap()) == Some(
        conn.params.unwrap().c_id,
    ) {
        StepV {
            state: StateV::Disconnected,
            params: conn.params,
            queue: queue,
            rtt_sample: None,
            response: None,
            accepted: true,
            forward: true,
            remove: true,
            need_iv_mac: None,
        }
    } else {
        no_step(conn, queue, true)
    }
}

/// The engine's transition function: one inbound packet against one
/// connection.  `alpha` is the fresh random share an `Init3` step would
/// use; `omega_der` is our public key.
pub open spec fn hs_next(
    conn: ConnV,
    p: PacketV,
    queue: Seq<SendRecord>,
    now_ms: u64,
    alpha: Seq<u8>,
    omega_der: Seq<u8>,
    send_clientinit: bool,
) -> StepV {
    let step = match conn.state {
        StateV::Init0 { version, random0 } => match p {
            PacketV::Init1 { random1, random0_r } => {
                if random0_r == random0.reverse() {
                    StepV {
                        state: StateV::Init2 { version },
                        params: conn.params,
                        queue,
                        rtt_sample: None,
                        response: Some(
                            OutPacketV {
                                header: init_header(),
                                data: OutDataV::Init2 { version, random1, random0_r },
                            },
                        ),
                        accepted: true,
                        forward: false,
                        remove: false,
                        need_iv_mac: None,
                    }
                } else {
                    no_step(conn, queue, true)
                }
            },
            _ => no_step(conn, queue, true),
        },
        StateV::Init2 { version } => match p {
            PacketV::Init3 { x, n, level, random2 } => {
                if be_val(n) != 0 {
                    StepV {
                        state: StateV::ClientInitIv { alpha },
                        params: conn.params,
                        queue,
                        rtt_sample: None,
                        response: Some(
                            OutPacketV {
                                header: init_header(),
                                data: OutDataV::Init4 {
                                    version,
                                    x,
                                    n,
                                    level,
                                    random2,
                                    y: nat_to_be(rsa_puzzle_val(be_val(x), be_val(n), level), 64),
                                    command: clientinitiv_command(alpha, omega_der),
                                },
                            },
                        ),
                        accepted: true,
                        forward: false,
                        remove: false,
                        need_iv_mac: None,
                    }
                } else {
                    no_step(conn, queue, true)
                }
            },
            _ => no_step(conn, queue, true),
        },
        StateV::ClientInitIv { alpha: our_alpha } => match p {
            PacketV::Command(cmd) => {
                if ivexpand_valid(cmd, our_alpha) {
                    StepV {
                        state: conn.state,
                        params: conn.params,
                        queue,
                        rtt_sample: None,
                        response: None,
                        accepted: false,
                        forward: false,
                        remove: false,
                        need_iv_mac: Some(
                            IvExpandV {
                                alpha: our_alpha,
                                beta: ivexpand_beta(cmd),
                                server_key: ivexpand_omega(cmd),
                            },
                        ),
                    }
                } else {
                    no_step(conn, queue, true)
                }
            },
            _ => no_step(conn, queue, true),
        },
        StateV::Connecting => match p {
            PacketV::Command(cmd) => step_initserver(conn, cmd, queue, now_ms),
            _ => no_step(conn, queue, true),
        },
        StateV::Connected { c_id } => match p {
            PacketV::Command(cmd) => step_leftview(conn, cmd, queue),
            _ => no_step(conn, queue, true),
        },
        StateV::Disconnected => no_step(conn, queue, false),
    };
    clientinit_gate(step, send_clientinit)
}

/// The `auto_send_clientinit` gate: an engine-emitted `clientinit`
/// command is withheld, and the inbound packet suppressed, when the
/// configuration forbids sending it.
pub open spec fn clientinit_gate(step: StepV, send_clientinit: bool) -> StepV {
    if !send_clientinit && (step.response matches Some(p) && (p.data matches OutDataV::Command(c)
        && c.name == CommandName::ClientInit)) {
        StepV { response: None, forward: false, ..step }
    } else {
        step
    }
}

/// The connection record after a step.
pub open spec fn conn_after(conn: ConnV, step: StepV) -> ConnV {
    ConnV {
        state: step.state,
        listeners: if step.accepted {
            Seq::empty()
        } else {
            conn.listeners
        },
        params: step.params,
        rtt: match step.rtt_sample {
            Some(s) => RttEstimator {
                last_sample_ms: s,
                samples: if conn.rtt.samples < u64::MAX {
                    (conn.rtt.samples + 1) as u64
                } else {
                    u64::MAX
                },
            },
            None => conn.rtt,
        },
    }
}

/// The connection record after `apply_iv_mac` finishes a pending
/// `initivexpand`: parameters materialised, state `Connecting`,
/// listeners drained.
pub open spec fn conn_after_iv_mac(conn: ConnV, exp: IvExpandV, iv: Seq<u8>, mac: Seq<u8>) -> ConnV {
    ConnV {
        state: StateV::Connecting,
        listeners: Seq::empty(),
        params: Some(initial_params(exp.server_key, iv, mac)),
        rtt: conn.rtt,
    }
}

/// A byte-for-byte copy.
pub fn clone_bytes(v: &Vec<u8>) -> (r: Vec<u8>)
    ensures
        r@ == v@,
{
    let mut r: Vec<u8> = Vec::new();
    let mut i: usize = 0;
    while i < v.len()
        invariant
            0 <= i <= v@.len(),
            r@ == v@.take(i as int),
        decreases v@.len() - i,
    {
        proof {
            assert(v@.take(i as int + 1) =~= v@.take(i as int).push(v@[i as int]));
        }
        r.push(v[i]);
        i += 1;
    }
    proof {
        assert(v@.take(v@.len() as int) =~= v@);
    }
    r
}

/// Run the `initivexpand` checks against a command; on success hand out
/// the decoded shares.
pub fn check_ivexpand(cmd: &CommandData, alpha: &Vec<u8>) -> (r: Option<IvExpandData>)
    ensures
        match r {
            Some(e) => ivexpand_valid(cmd@, alpha@) && e@ == (IvExpandV {
                alpha: alpha@,
                beta: ivexpand_beta(cmd@),
                server_key: ivexpand_omega(cmd@),
            }),
            None => !ivexpand_valid(cmd@, alpha@),
        },
{
    if !matches!(cmd.name, CommandName::InitIvExpand) {
        return None;
    }
    let ia = match find_arg(&cmd.args, ArgKey::Alpha) {
        Some(i) => i,
        None => { return None },
    };
    let a_dec = match b64_decode(&cmd.args[ia].1) {
        Some(v) => v,
        None => { return None },
    };
    if !crate::packets::bytes_eq(&a_dec, alpha) {
        return None;
    }
    let ib = match find_arg(&cmd.args, ArgKey::Beta) {
        Some(i) => i,
        None => { return None },
    };
    let beta = match b64_decode(&cmd.args[ib].1) {
        Some(v) => v,
        None => { return None },
    };
    if beta.len() != 10 {
        return None;
    }
    let io = match find_arg(&cmd.args, ArgKey::Omega) {
        Some(i) => i,
        None => { return None },
    };
    let omega = match b64_decode(&cmd.args[io].1) {
        Some(v) => v,
        None => { return None },
    };
    let e = IvExpandData { alpha: clone_bytes(alpha), beta, server_key: omega };
    Some(e)
}

/// Withdraw every pending `clientinit` entry from the send queue in one
/// drain pass, keeping the order of the rest; return the last one.
pub fn withdraw_clientinit(q: &mut Vec<SendRecord>) -> (r: Option<SendRecord>)
    ensures
        final(q)@ == queue_kept(old(q)@),
        r == withdrawn(old(q)@),
{
    let mut kept: Vec<SendRecord> = Vec::new();
    let mut rec: Option<SendRecord> = None;
    let mut i: usize = 0;
    while i < q.len()
        invariant
            0 <= i <= q@.len(),
            q@ == old(q)@,
            kept@ == queue_kept(q@.take(i as int)),
            rec == withdrawn(q@.take(i as int)),
        decreases q@.len() - i,
    {
        let r0 = q[i];
        proof {
            assert(q@.take(i as int + 1).drop_last() =~= q@.take(i as int));
            assert(q@.take(i as int + 1).last() == q@[i as int]);
        }
        if matches!(r0.p_type, PacketType::Command) && r0.p_id == 1 {
            rec = Some(r0);
        } else {
            kept.push(r0);
        }
        i += 1;
    }
    proof {
        assert(q@.take(q@.len() as int) =~= q@);
    }
    *q = kept;
    rec
}

/// What one call of the engine hands back to the surrounding loop.
pub struct HandleOutput {
    /// The response to send, if any.
    pub response: Option<OutPacket>,
    /// The drained listeners, to fire while the state is the new one.
    pub fired: Vec<u64>,
    /// Whether the inbound packet flows on downstream.
    pub forward: bool,
    /// Whether the connection was removed from the registry.
    pub removed: bool,
    /// A valid `initivexpand`'s shares, awaiting externally derived key
    /// material for `apply_iv_mac`.
    pub need_iv_mac: Option<IvExpandData>,
}

pub open spec fn opt_out_view(o: Option<OutPacket>) -> Option<OutPacketV> {
    match o {
        Some(p) => Some(p@),
        None => None,
    }
}

pub open spec fn opt_exp_view(o: Option<IvExpandData>) -> Option<IvExpandV> {
    match o {
        Some(e) => Some(e@),
        None => None,
    }
}

/// The engine: it processes inbound packets one by one against the
/// registry, as the codec stream yields them.
pub struct DefaultPacketHandlerStream {
    /// Whether an engine-emitted `clientinit` command may go to the
    /// sink, or is left to the caller.
    pub send_clientinit: bool,
}

impl DefaultPacketHandlerStream {
    pub fn new(send_clientinit: bool) -> (r: DefaultPacketHandlerStream)
        ensures
            r.send_clientinit == send_clientinit,
    {
        DefaultPacketHandlerStream { send_clientinit }
    }

    /// Handle one inbound packet: validate it against the connection's
    /// state, apply the transition `hs_next` describes, drain the
    /// listeners on a transition, and hand back what to send, forward
    /// and fire.  `alpha` is the fresh random share an `Init3` step
    /// uses.
    pub fn handle_packet(
        &self,
        data: &mut ClientData,
        addr: PeerAddr,
        packet: &Packet,
        now_ms: u64,
        alpha: Vec<u8>,
    ) -> (out: HandleOutput)
        requires
            old(data).wf(),
            wf_packet(packet@),
            alpha@.len() == 10,
        ensures
            final(data).wf(),
            final(data).public_key_der@ == old(data).public_key_der@,
            final(data).next_listener_id == old(data).next_listener_id,
            old(data).conn_at(addr) is None ==> {
                &&& *final(data) == *old(data)
                &&& out.forward == true
                &&& out.response is None
                &&& out.fired@ == Seq::<u64>::empty()
                &&& out.removed == false
                &&& out.need_iv_mac is None
            },
            old(data).conn_at(addr) matches Some(conn0) ==> {
                let step = hs_next(
                    conn0,
                    packet@,
                    old(data).send_queue@,
                    now_ms,
                    alpha@,
                    old(data).public_key_der@,
                    self.send_clientinit,
                );
                &&& final(data).conn_at(addr) == (if step.remove {
                    None::<ConnV>
                } else {
                    Some(conn_after(conn0, step))
                })
                &&& forall|b: PeerAddr|
                    b != addr ==> final(data).conn_at(b) == old(data).conn_at(b)
                &&& final(data).send_queue@ == step.queue
                &&& opt_out_view(out.response) == step.response
                &&& out.fired@ == (if step.accepted {
                    conn0.listeners
                } else {
                    Seq::<u64>::empty()
                })
                &&& out.forward == step.forward
                &&& out.removed == step.remove
                &&& opt_exp_view(out.need_iv_mac) == step.need_iv_mac
            },
    {
        let idx = match data.find_connection(addr) {
            Some(i) => i,
            None => {
                return HandleOutput {
                    response: None,
                    fired: Vec::new(),
                    forward: true,
                    removed: false,
                    need_iv_mac: None,
                };
            },
        };
        let ghost s0 = data.connections@;
        let (caddr, mut conn) = data.connections.remove(idx);
        let ghost conn0 = conn@;
        let ghost step = hs_next(
            conn0,
            packet@,
            old(data).send_queue@,
            now_ms,
            alpha@,
            old(data).public_key_der@,
            self.send_clientinit,
        );

        let mut new_state: Option<ServerConnectionState> = None;
        let mut accepted: bool = false;
        let mut forward: bool = true;
        let mut removed: bool = false;
        let mut response: Option<OutPacket> = None;
        let mut need_iv_mac: Option<IvExpandData> = None;
        let mut rtt_sample: Option<u64> = None;

        match &conn.state {
            ServerConnectionState::Init0 { version, random0 } => {
                let version: u32 = *version;
                match packet {
                    Packet::Init1 { random1, random0_r } => {
                        if is_reversed(random0, random0_r) {
                            response = Some(
                                OutPacket {
                                    header: create_init_header(),
                                    data: OutData::Init2 {
                                        version,
                                        random1: clone_bytes(random1),
                                        random0_r: clone_bytes(random0_r),
                                    },
                                },
                            );
                            new_state = Some(ServerConnectionState::Init2 { version });
                            accepted = true;
                            forward = false;
                        }
                    },
                    _ => {},
                }
            },
            ServerConnectionState::Init2 { version } => {
                let version: u32 = *version;
                match packet {
                    Packet::Init3 { x, n, level, random2 } => {
                        match solve_rsa_puzzle(x, n, *level) {
                            Some(y) => {
                                let command = build_clientinitiv(&alpha, &data.public_key_der);
                                response = Some(
                                    OutPacket {
                                        header: create_init_header(),
                                        data: OutData::Init4 {
                                            version,
                                            x: clone_bytes(x),
                                            n: clone_bytes(n),
                                            level: *level,
                                            random2: clone_bytes(random2),
                                            y,
                                            command,
                                        },
                                    },
                                );
                                new_state = Some(ServerConnectionState::ClientInitIv { alpha });
                                accepted = true;
                                forward = false;
                            },
                            None => {},
                        }
                    },
                    _ => {},
                }
            },
            ServerConnectionState::ClientInitIv { alpha: our_alpha } => {
                match packet {
                    Packet::Command(cmd) => {
                        match check_ivexpand(cmd, our_alpha) {
                            Some(e) => {
                                need_iv_mac = Some(e);
                                forward = false;
                            },
                            None => {},
                        }
                    },
                    _ => {},
                }
            },
            ServerConnectionState::Connecting => {
                match packet {
                    Packet::Command(cmd) => {
                        if matches!(cmd.name, CommandName::InitServer) {
                            match find_arg(&cmd.args, ArgKey::Aclid) {
                                Some(ia) => {
                                    match parse_u16(&cmd.args[ia].1) {
                                        Some(cid) => {
                                            match &mut conn.params {
                                                Some(p) => {
                                                    p.c_id = cid;
                                                },
                                                None => {},
                                            }
                                            let rec = withdraw_clientinit(&mut data.send_queue);
                                            match rec {
                                                Some(r) => {
                                                    if r.tries == 1 {
                                                        rtt_sample = Some(
                                                            if now_ms >= r.sent_at_ms {
                                                                now_ms - r.sent_at_ms
                                                            } else {
                                                                0
                                                            },
                                                        );
                                                    }
                                                },
                                                None => {},
                                            }
                                            new_state = Some(
                                                ServerConnectionState::Connected { c_id: cid },
                                            );
                                            accepted = true;
                                        },
                                        None => {},
                                    }
                                },
                                None => {},
                            }
                        }
                    },
                    _ => {},
                }
            },
            ServerConnectionState::Connected { .. } => {
                match packet {
                    Packet::Command(cmd) => {
                        if matches!(cmd.name, CommandName::NotifyClientLeftView) {
                            match find_arg(&cmd.args, ArgKey::Clid) {
                                Some(ic) => {
                                    match parse_u16(&cmd.args[ic].1) {
                                        Some(v) => {
                                            let matches_ours: bool = match &conn.params {
                                                Some(p) => v == p.c_id,
                                                None => false,
                                            };
                                            if matches_ours {
                                                new_state = Some(
                                                    ServerConnectionState::Disconnected,
                                                );
                                                accepted = true;
                                                removed = true;
                                            }
                                        },
                                        None => {},
                                    }
                                },
                                None => {},
                            }
                        }
                    },
                    _ => {},
                }
            },
            ServerConnectionState::Disconnected => {
                forward = false;
            },
        }

        let mut fired: Vec<u64> = Vec::new();
        if accepted {
            match new_state {
                Some(st) => {
                    conn.state = st;
                },
                None => {},
            }
            core::mem::swap(&mut fired, &mut conn.state_change_listener);
        }
        match rtt_sample {
            Some(sample) => {
                conn.rtt.update_srtt(sample);
            },
            None => {},
        }

        proof {
            assert(conn@ =~= conn_after(conn0, step));
            assert(step.remove == removed);
            assert(step.accepted == accepted);
            assert(step.forward == forward);
            assert(step.queue == data.send_queue@);
            assert(opt_out_view(response) == step.response);
            assert(opt_exp_view(need_iv_mac) == step.need_iv_mac);
            assert(fired@ == if step.accepted {
                conn0.listeners
            } else {
                Seq::<u64>::empty()
            });
            assert(wf_conn(conn0));
            assert(wf_state(conn@.state));
            assert(match conn@.params {
                Some(p) => wf_params(p),
                None => true,
            });
            assert(crate::connection::params_match_state(conn@));
            assert(wf_conn(conn@));
        }

        if removed {
            proof {
                assert(forall|k: int| 0 <= k < idx ==> s0[k].0 != s0[idx as int].0);
                assert(forall|k: int|
                    idx < k < s0.len() ==> s0[k].0 != s0[idx as int].0);
                lemma_reg_remove_all(s0, idx as int, addr);
            }
        } else {
            data.connections.insert(idx, (caddr, conn));
            proof {
                assert(data.connections@ =~= s0.update(idx as int, (addr, conn)));
                lemma_reg_update_all(s0, idx as int, conn, addr);
            }
        }

        HandleOutput { response, fired, forward, removed, need_iv_mac }
    }

    /// Finish a pending `initivexpand` with the key material the caller
    /// derived from the shares: materialise the parameters, move to
    /// `Connecting` and drain the listeners.  On a connection in any
    /// other state, or none, nothing changes.
    pub fn apply_iv_mac(
        &self,
        data: &mut ClientData,
        addr: PeerAddr,
        exp: IvExpandData,
        shared_iv: Vec<u8>,
        shared_mac: Vec<u8>,
    ) -> (fired: Vec<u64>)
        requires
            old(data).wf(),
        ensures
            final(data).wf(),
            final(data).send_queue@ == old(data).send_queue@,
            final(data).public_key_der@ == old(data).public_key_der@,
            final(data).next_listener_id == old(data).next_listener_id,
            match old(data).conn_at(addr) {
                Some(conn0) => if conn0.state is ClientInitIv {
                    &&& final(data).conn_at(addr) == Some(
                        conn_after_iv_mac(conn0, exp@, shared_iv@, shared_mac@),
                    )
                    &&& (forall|b: PeerAddr|
                        b != addr ==> final(data).conn_at(b) == old(data).conn_at(b))
                    &&& fired@ == conn0.listeners
                } else {
                    *final(data) == *old(data) && fired@ == Seq::<u64>::empty()
                },
                None => *final(data) == *old(data) && fired@ == Seq::<u64>::empty(),
            },
    {
        let idx = match data.find_connection(addr) {
            Some(i) => i,
            None => {
                return Vec::new();
            },
        };
        let in_iv_state: bool = matches!(
            data.connections[idx].1.state,
            ServerConnectionState::ClientInitIv { .. }
        );
        if !in_iv_state {
            return Vec::new();
        }
        let ghost s0 = data.connections@;
        let (caddr, mut conn) = data.connections.remove(idx);
        let ghost conn0 = conn@;
        conn.state = ServerConnectionState::Connecting;
        conn.params = Some(ConnectedParams::new(exp.server_key, shared_iv, shared_mac));
        let mut fired: Vec<u64> = Vec::new();
        core::mem::swap(&mut fired, &mut conn.state_change_listener);
        data.connections.insert(idx, (caddr, conn));
        proof {
            assert(conn@ =~= conn_after_iv_mac(conn0, exp@, shared_iv@, shared_mac@));
            assert(data.connections@ =~= s0.update(idx as int, (addr, conn)));
            lemma_reg_update_all(s0, idx as int, conn, addr);
        }
        fired
    }
}

/// `lemma_reg_update` together with preservation of well-formedness.
pub proof fn lemma_reg_update_all(
    s: Seq<(PeerAddr, ServerConnectionData)>,
    i: int,
    c: ServerConnectionData,
    addr: PeerAddr,
)
    requires
        0 <= i < s.len(),
        s[i].0 == addr,
        wf_registry(s),
        wf_conn(c@),
    ensures
        wf_registry(s.update(i, (addr, c))),
        reg_lookup(s.update(i, (addr, c)), addr) == Some(c@),
        forall|b: PeerAddr| b != addr ==> reg_lookup(s.update(i, (addr, c)), b) == reg_lookup(s, b),
{
    let t = s.update(i, (addr, c));
    assert(forall|k: int| 0 <= k < s.len() && k != i ==> t[k] == s[k]);
    assert(forall|k: int, j: int|
        0 <= k < j < t.len() ==> (#[trigger] t[k]).0 != (#[trigger] t[j]).0);
    assert(forall|k: int| 0 <= k < t.len() ==> wf_conn((#[trigger] t[k]).1@));
    lemma_reg_update(s, i, c, addr);
    assert forall|b: PeerAddr| b != addr implies reg_lookup(t, b) == reg_lookup(s, b) by {
        lemma_reg_update(s, i, c, b);
    }
}

/// `lemma_reg_remove` together with preservation of well-formedness.
pub proof fn lemma_reg_remove_all(s: Seq<(PeerAddr, ServerConnectionData)>, i: int, addr: PeerAddr)
    requires
        0 <= i < s.len(),
        s[i].0 == addr,
        wf_registry(s),
    ensures
        wf_registry(s.remove(i)),
        reg_lookup(s.remove(i), addr) is None,
        forall|b: PeerAddr| b != addr ==> reg_lookup(s.remove(i), b) == reg_lookup(s, b),
{
    let t = s.remove(i);
    assert(forall|k: int| 0 <= k < i ==> t[k] == s[k]);
    assert(forall|k: int| i <= k < t.len() ==> t[k] == s[k + 1]);
    assert(forall|k: int, j: int|
        0 <= k < j < t.len() ==> (#[trigger] t[k]).0 != (#[trigger] t[j]).0);
    assert(forall|k: int| 0 <= k < t.len() ==> wf_conn((#[trigger] t[k]).1@));
    lemma_reg_remove(s, i, addr);
    assert forall|b: PeerAddr| b != addr implies reg_lookup(t, b) == reg_lookup(s, b) by {
        lemma_reg_remove(s, i, b);
    }
}

/// Law: a step the engine does not accept changes nothing and emits
/// nothing: state, parameters and queue stay, no response leaves, no
/// sample is fed and the connection stays registered.
pub proof fn lemma_invalid_packet_unchanged(
    conn: ConnV,
    p: PacketV,
    queue: Seq<SendRecord>,
    now_ms: u64,
    alpha: Seq<u8>,
    omega_der: Seq<u8>,
    send_clientinit: bool,
)
    requires
        !hs_next(conn, p, queue, now_ms, alpha, omega_der, send_clientinit).accepted,
    ensures
        hs_next(conn, p, queue, now_ms, alpha, omega_der, send_clientinit).state == conn.state,
        hs_next(conn, p, queue, now_ms, alpha, omega_der, send_clientinit).params == conn.params,
        hs_next(conn, p, queue, now_ms, alpha, omega_der, send_clientinit).queue == queue,
        hs_next(conn, p, queue, now_ms, alpha, omega_der, send_clientinit).response is None,
        hs_next(conn, p, queue, now_ms, alpha, omega_der, send_clientinit).rtt_sample is None,
        !hs_next(conn, p, queue, now_ms, alpha, omega_der, send_clientinit).remove,
{
}

/// Law: listeners drained by a step observe the new state: the record
/// the registry holds while they fire carries exactly the step's state.
pub proof fn lemma_listeners_observe_new_state(conn: ConnV, step: StepV)
    ensures
        conn_after(conn, step).state == step.state,
{
}

/// Law: a valid Init1, Init3, initivexpand, initserver sequence drives
/// a fresh connection to `Connected`, with the client id the server
/// assigned in `aclid`.
pub proof fn lemma_handshake_completes(
    conn: ConnV,
    queue: Seq<SendRecord>,
    version: u32,
    random0: Seq<u8>,
    random1: Seq<u8>,
    x: Seq<u8>,
    n: Seq<u8>,
    level: u32,
    random2: Seq<u8>,
    ivcmd: CommandV,
    iv: Seq<u8>,
    mac: Seq<u8>,
    iscmd: CommandV,
    aclid: u16,
    t1: u64,
    t2: u64,
    t3: u64,
    t4: u64,
    alpha: Seq<u8>,
    omega_der: Seq<u8>,
    send_clientinit: bool,
)
    requires
        conn.state == (StateV::Init0 { version, random0 }),
        be_val(n) != 0,
        ivexpand_valid(ivcmd, alpha),
        iscmd.name == CommandName::InitServer,
        first_arg(iscmd.args, ArgKey::Aclid) is Some,
        parse_u16_v(first_arg(iscmd.args, ArgKey::Aclid).unwrap()) == Some(aclid),
    ensures
        ({
            let s1 = hs_next(
                conn,
                PacketV::Init1 { random1, random0_r: random0.reverse() },
                queue,
                t1,
                alpha,
                omega_der,
                send_clientinit,
            );
            let c1 = conn_after(conn, s1);
            let s2 = hs_next(
                c1,
                PacketV::Init3 { x, n, level, random2 },
                s1.queue,
                t2,
                alpha,
                omega_der,
                send_clientinit,
            );
            let c2 = conn_after(c1, s2);
            let s3 = hs_next(
                c2,
                PacketV::Command(ivcmd),
                s2.queue,
                t3,
                alpha,
                omega_der,
                send_clientinit,
            );
            let c3 = conn_after_iv_mac(c2, s3.need_iv_mac.unwrap(), iv, mac);
            let s4 = hs_next(
                c3,
                PacketV::Command(iscmd),
                s3.queue,
                t4,
                alpha,
                omega_der,
                send_clientinit,
            );
            let c4 = conn_after(c3, s4);
            &&& s1.accepted
            &&& s2.accepted
            &&& s3.need_iv_mac is Some
            &&& s4.accepted
            &&& c4.state == (StateV::Connected { c_id: aclid })
            &&& c4.params is Some
            &&& c4.params.unwrap().c_id == aclid
        }),
{
}

/// Law: `notifyclientleftview` carrying our own client id tears the
/// connection down; the engine's contract then empties the registry at
/// the peer.
pub proof fn lemma_leftview_removes(
    conn: ConnV,
    cmd: CommandV,
    queue: Seq<SendRecord>,
    now_ms: u64,
    alpha: Seq<u8>,
    omega_der: Seq<u8>,
    send_clientinit: bool,
    c_id: u16,
)
    requires
        conn.state == (StateV::Connected { c_id }),
        conn.params is Some,
        cmd.name == CommandName::NotifyClientLeftView,
        first_arg(cmd.args, ArgKey::Clid) is Some,
        parse_u16_v(first_arg(cmd.args, ArgKey::Clid).unwrap()) == Some(conn.params.unwrap().c_id),
    ensures
        hs_next(conn, PacketV::Command(cmd), queue, now_ms, alpha, omega_der, send_clientinit).remove,
        hs_next(
            conn,
            PacketV::Command(cmd),
            queue,
            now_ms,
            alpha,
            omega_der,
            send_clientinit,
        ).state == StateV::Disconnected,
        hs_next(conn, PacketV::Command(cmd), queue, now_ms, alpha, omega_der, send_clientinit).accepted,
{
}

/// Law: an `Init1` echoing `random0` unreversed is rejected, whenever
/// reversing would change it.
pub proof fn lemma_init1_unreversed_rejected(
    conn: ConnV,
    queue: Seq<SendRecord>,
    version: u32,
    random0: Seq<u8>,
    random1: Seq<u8>,
    now_ms: u64,
    alpha: Seq<u8>,
    omega_der: Seq<u8>,
    send_clientinit: bool,
)
    requires
        conn.state == (StateV::Init0 { version, random0 }),
        random0 != random0.reverse(),
    ensures
        !hs_next(
            conn,
            PacketV::Init1 { random1, random0_r: random0 },
            queue,
            now_ms,
            alpha,
            omega_der,
            send_clientinit,
        ).accepted,
        hs_next(
            conn,
            PacketV::Init1 { random1, random0_r: random0 },
            queue,
            now_ms,
            alpha,
            omega_der,
            send_clientinit,
        ).response is None,
        hs_next(
            conn,
            PacketV::Init1 { random1, random0_r: random0 },
            queue,
            now_ms,
            alpha,
            omega_der,
            send_clientinit,
        ).state == conn.state,
{
}

/// Law: an `initivexpand` whose `alpha` does not echo ours is
/// rejected.
pub proof fn lemma_wrong_alpha_rejected(
    conn: ConnV,
    cmd: CommandV,
    other: Seq<u8>,
    queue: Seq<SendRecord>,
    now_ms: u64,
    entropy_alpha: Seq<u8>,
    omega_der: Seq<u8>,
    send_clientinit: bool,
    alpha: Seq<u8>,
)
    requires
        conn.state == (StateV::ClientInitIv { alpha }),
        first_arg(cmd.args, ArgKey::Alpha) is Some,
        b64_decoding(first_arg(cmd.args, ArgKey::Alpha).unwrap()) == Some(other),
        other != alpha,
    ensures
        !hs_next(
            conn,
            PacketV::Command(cmd),
            queue,
            now_ms,
            entropy_alpha,
            omega_der,
            send_clientinit,
        ).accepted,
        hs_next(
            conn,
            PacketV::Command(cmd),
            queue,
            now_ms,
            entropy_alpha,
            omega_der,
            send_clientinit,
        ).need_iv_mac is None,
        hs_next(
            conn,
            PacketV::Command(cmd),
            queue,
            now_ms,
            entropy_alpha,
            omega_der,
            send_clientinit,
        ).state == conn.state,
{
}

/// Law: with the other checks passing, the `beta` argument is accepted
/// exactly when it decodes to 10 bytes.
pub proof fn lemma_beta_length_gate(
    conn: ConnV,
    cmd: CommandV,
    b: Seq<u8>,
    queue: Seq<SendRecord>,
    now_ms: u64,
    entropy_alpha: Seq<u8>,
    omega_der: Seq<u8>,
    send_clientinit: bool,
    alpha: Seq<u8>,
)
    requires
        conn.state == (StateV::ClientInitIv { alpha }),
        cmd.name == CommandName::InitIvExpand,
        first_arg(cmd.args, ArgKey::Alpha) is Some,
        b64_decoding(first_arg(cmd.args, ArgKey::Alpha).unwrap()) == Some(alpha),
        first_arg(cmd.args, ArgKey::Beta) is Some,
        b64_decoding(first_arg(cmd.args, ArgKey::Beta).unwrap()) == Some(b),
        first_arg(cmd.args, ArgKey::Omega) is Some,
        b64_decoding(first_arg(cmd.args, ArgKey::Omega).unwrap()) is Some,
    ensures
        hs_next(
            conn,
            PacketV::Command(cmd),
            queue,
            now_ms,
            entropy_alpha,
            omega_der,
            send_clientinit,
        ).need_iv_mac is Some <==> b.len() == 10,
{
}

/// Law: an `initserver` step feeds a round-trip sample exactly when
/// the withdrawn `clientinit` entry was sent exactly once.
pub proof fn lemma_rtt_iff_first_try(q: Seq<SendRecord>, now_ms: u64)
    ensures
        initserver_rtt(q, now_ms) is Some <==> (withdrawn(q) matches Some(r) && r.tries == 1),
{
}

/// The position of a state along the one-way order of the handshake.
pub open spec fn state_rank(s: StateV) -> int {
    match s {
        StateV::Init0 { .. } => 0,
        StateV::Init2 { .. } => 1,
        StateV::ClientInitIv { .. } => 2,
        StateV::Connecting => 3,
        StateV::Connected { .. } => 4,
        StateV::Disconnected => 5,
    }
}

/// Law: transitions are monotonic: no step of the engine moves a
/// connection backwards along the handshake order.
pub proof fn lemma_transitions_monotonic(
    conn: ConnV,
    p: PacketV,
    queue: Seq<SendRecord>,
    now_ms: u64,
    alpha: Seq<u8>,
    omega_der: Seq<u8>,
    send_clientinit: bool,
)
    ensures
        state_rank(hs_next(conn, p, queue, now_ms, alpha, omega_der, send_clientinit).state)
            >= state_rank(conn.state),
{
}

/// Law: `apply_iv_mac` only ever moves forward too, from the key
/// exchange into `Connecting`.
pub proof fn lemma_iv_mac_monotonic(conn: ConnV, exp: IvExpandV, iv: Seq<u8>, mac: Seq<u8>)
    requires
        conn.state is ClientInitIv,
    ensures
        state_rank(conn_after_iv_mac(conn, exp, iv, mac).state) >= state_rank(conn.state),
{
}

} // verus!
