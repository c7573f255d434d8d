//! The packets the handshake reads and writes, as the codec hands them
//! over: structured init packets and commands with key/value arguments.
//! Serialisation itself lives outside; this module models the fields
//! the engine depends on and builds the outbound packets bit for bit.

use vstd::prelude::*;
use crate::b64::{b64_encode, b64_encoding};

verus! {

#[derive(Clone, Copy, PartialEq, Eq, Structural, Debug)]
pub enum PacketType {
    Voice,
    VoiceWhisper,
    Command,
    CommandLow,
    Ping,
    Pong,
    Ack,
    AckLow,
    Init,
}

/// The position of a packet type in the per-type counter tables.
pub open spec fn packet_type_index(t: PacketType) -> int {
    match t {
        PacketType::Voice => 0,
        PacketType::VoiceWhisper => 1,
        PacketType::Command => 2,
        PacketType::CommandLow => 3,
        PacketType::Ping => 4,
        PacketType::Pong => 5,
        PacketType::Ack => 6,
        PacketType::AckLow => 7,
        PacketType::Init => 8,
    }
}

pub fn packet_type_to_index(t: PacketType) -> (r: usize)
    ensures
        r == packet_type_index(t),
{
    match t {
        PacketType::Voice => 0,
        PacketType::VoiceWhisper => 1,
        PacketType::Command => 2,
        PacketType::CommandLow => 3,
        PacketType::Ping => 4,
        PacketType::Pong => 5,
        PacketType::Ack => 6,
        PacketType::AckLow => 7,
        PacketType::Init => 8,
    }
}

pub struct Header {
    pub mac: Vec<u8>,
    pub p_id: u16,
    pub c_id: Option<u16>,
    pub p_type: PacketType,
    pub unencrypted: bool,
}

#[verifier::ext_equal]
pub struct HeaderV {
    pub mac: Seq<u8>,
    pub p_id: u16,
    pub c_id: Option<u16>,
    pub p_type: PacketType,
    pub unencrypted: bool,
}

impl View for Header {
    type V = HeaderV;

    open spec fn view(&self) -> HeaderV {
        HeaderV {
            mac: self.mac@,
            p_id: self.p_id,
            c_id: self.c_id,
            p_type: self.p_type,
            unencrypted: self.unencrypted,
        }
    }
}

/// The literal 8 ASCII bytes `TS3INIT1` that every init header carries
/// in place of a MAC.
pub open spec fn ts3init_mac() -> Seq<u8> {
    seq![0x54u8, 0x53u8, 0x33u8, 0x49u8, 0x4eu8, 0x49u8, 0x54u8, 0x31u8]
}

/// The header of every init packet: MAC `TS3INIT1`, packet id `0x65`,
/// client id 0, type `Init`, unencrypted.
pub open spec fn init_header() -> HeaderV {
    HeaderV {
        mac: ts3init_mac(),
        p_id: 0x65,
        c_id: Some(0),
        p_type: PacketType::Init,
        unencrypted: true,
    }
}

pub fn create_init_header() -> (h: Header)
    ensures
        h@ == init_header(),
{
    let mut mac: Vec<u8> = Vec::new();
    mac.push(0x54);
    mac.push(0x53);
    mac.push(0x33);
    mac.push(0x49);
    mac.push(0x4e);
    mac.push(0x49);
    mac.push(0x54);
    mac.push(0x31);
    proof {
        assert(mac@ =~= ts3init_mac());
    }
    let h = Header { mac, p_id: 0x65, c_id: Some(0), p_type: PacketType::Init, unencrypted: true };
    proof {
        assert(h@ =~= init_header());
    }
    h
}

#[derive(Clone, Copy, PartialEq, Eq, Structural, Debug)]
pub enum CommandName {
    ClientInitIv,
    ClientInit,
    InitIvExpand,
    InitServer,
    NotifyClientLeftView,
    Other,
}

#[derive(Clone, Copy, PartialEq, Eq, Structural, Debug)]
pub enum ArgKey {
    Alpha,
    Beta,
    Omega,
    Ot,
    Ip,
    Aclid,
    Clid,
    Other,
}

/// A command as the codec parses it: a name and key/value arguments,
/// values as raw text bytes.
pub struct CommandData {
    pub name: CommandName,
    pub args: Vec<(ArgKey, Vec<u8>)>,
}

#[verifier::ext_equal]
pub struct CommandV {
    pub name: CommandName,
    pub args: Seq<(ArgKey, Seq<u8>)>,
}

impl View for CommandData {
    type V = CommandV;

    open spec fn view(&self) -> CommandV {
        CommandV { name: self.name, args: self.args@.map_values(|p: (ArgKey, Vec<u8>)| (p.0, p.1@)) }
    }
}

/// The value of the first argument with the given key, as the engine
/// reads arguments.
pub open spec fn first_arg(args: Seq<(ArgKey, Seq<u8>)>, k: ArgKey) -> Option<Seq<u8>>
    decreases args.len(),
{
    if args.len() == 0 {
        None
    } else if args[0].0 == k {
        Some(args[0].1)
    } else {
        first_arg(args.skip(1), k)
    }
}

/// Find the first argument with the given key; the returned index is
/// where `first_arg` reads.
pub fn find_arg(args: &Vec<(ArgKey, Vec<u8>)>, k: ArgKey) -> (r: Option<usize>)
    ensures
        match r {
            Some(i) => {
                &&& i < args@.len()
                &&& args@[i as int].0 == k
                &&& first_arg(args@.map_values(|p: (ArgKey, Vec<u8>)| (p.0, p.1@)), k) == Some(
                    args@[i as int].1@,
                )
            },
            None => first_arg(args@.map_values(|p: (ArgKey, Vec<u8>)| (p.0, p.1@)), k) is None,
        },
{
    let ghost m = args@.map_values(|p: (ArgKey, Vec<u8>)| (p.0, p.1@));
    proof {
        assert(m.skip(0) =~= m);
    }
    let mut i: usize = 0;
    while i < args.len()
        invariant
            0 <= i <= args@.len(),
            m == args@.map_values(|p: (ArgKey, Vec<u8>)| (p.0, p.1@)),
            first_arg(m, k) == first_arg(m.skip(i as int), k),
            forall|j: int| 0 <= j < i ==> args@[j].0 != k,
        decreases args@.len() - i,
    {
        if args[i].0 == k {
            proof {
                assert(m.skip(i as int)[0] == m[i as int]);
                assert(m[i as int].0 == k);
            }
            return Some(i);
        }
        proof {
            assert(m.skip(i as int).len() > 0);
            assert(m.skip(i as int)[0] == m[i as int]);
            assert(m.skip(i as int).skip(1) =~= m.skip(i as int + 1));
        }
        i += 1;
    }
    proof {
        assert(m.skip(i as int).len() == 0);
    }
    None
}

/// A packet arriving from the server, reduced to the variants the
/// handshake reads.  Everything else is `Other`.
pub enum Packet {
    Init1 { random1: Vec<u8>, random0_r: Vec<u8> },
    Init3 { x: Vec<u8>, n: Vec<u8>, level: u32, random2: Vec<u8> },
    Command(CommandData),
    Other,
}

#[verifier::ext_equal]
pub enum PacketV {
    Init1 { random1: Seq<u8>, random0_r: Seq<u8> },
    Init3 { x: Seq<u8>, n: Seq<u8>, level: u32, random2: Seq<u8> },
    Command(CommandV),
    Other,
}

impl View for Packet {
    type V = PacketV;

    open spec fn view(&self) -> PacketV {
        match self {
            Packet::Init1 { random1, random0_r } => PacketV::Init1 {
                random1: random1@,
                random0_r: random0_r@,
            },
            Packet::Init3 { x, n, level, random2 } => PacketV::Init3 {
                x: x@,
                n: n@,
                level: *level,
                random2: random2@,
            },
            Packet::Command(c) => PacketV::Command(c@),
            Packet::Other => PacketV::Other,
        }
    }
}

/// Field widths of the wire format: the codec only yields packets of
/// these shapes.
pub open spec fn wf_packet(p: PacketV) -> bool {
    match p {
        PacketV::Init1 { random1, random0_r } => random1.len() == 16 && random0_r.len() == 4,
        PacketV::Init3 { x, n, level, random2 } => x.len() == 64 && n.len() == 64 && random2.len()
            == 100,
        PacketV::Command(_) => true,
        PacketV::Other => true,
    }
}

/// A packet the engine emits.
pub enum OutData {
    Init0 { version: u32, timestamp: u32, random0: Vec<u8> },
    Init2 { version: u32, random1: Vec<u8>, random0_r: Vec<u8> },
    Init4 { version: u32, x: Vec<u8>, n: Vec<u8>, level: u32, random2: Vec<u8>, y: Vec<u8>, command: CommandData },
    Command(CommandData),
}

#[verifier::ext_equal]
pub enum OutDataV {
    Init0 { version: u32, timestamp: u32, random0: Seq<u8> },
    Init2 { version: u32, random1: Seq<u8>, random0_r: Seq<u8> },
    Init4 { version: u32, x: Seq<u8>, n: Seq<u8>, level: u32, random2: Seq<u8>, y: Seq<u8>, command: CommandV },
    Command(CommandV),
}

impl View for OutData {
    type V = OutDataV;

    open spec fn view(&self) -> OutDataV {
        match self {
            OutData::Init0 { version, timestamp, random0 } => OutDataV::Init0 {
                version: *version,
                timestamp: *timestamp,
                random0: random0@,
            },
            OutData::Init2 { version, random1, random0_r } => OutDataV::Init2 {
                version: *version,
                random1: random1@,
                random0_r: random0_r@,
            },
            OutData::Init4 { version, x, n, level, random2, y, command } => OutDataV::Init4 {
                version: *version,
                x: x@,
                n: n@,
                level: *level,
                random2: random2@,
                y: y@,
                command: command@,
            },
            OutData::Command(c) => OutDataV::Command(c@),
        }
    }
}

pub struct OutPacket {
    pub header: Header,
    pub data: OutData,
}

#[verifier::ext_equal]
pub struct OutPacketV {
    pub header: HeaderV,
    pub data: OutDataV,
}

impl View for OutPacket {
    type V = OutPacketV;

    open spec fn view(&self) -> OutPacketV {
        OutPacketV { header: self.header@, data: self.data@ }
    }
}

/// The `clientinitiv` command of Init4: `alpha` and `omega` in base64,
/// `ot=1`, empty `ip`.
pub open spec fn clientinitiv_command(alpha: Seq<u8>, omega: Seq<u8>) -> CommandV {
    CommandV {
        name: CommandName::ClientInitIv,
        args: seq![
            (ArgKey::Alpha, b64_encoding(alpha)),
            (ArgKey::Omega, b64_encoding(omega)),
            (ArgKey::Ot, seq![0x31u8]),
            (ArgKey::Ip, Seq::<u8>::empty()),
        ],
    }
}

pub fn build_clientinitiv(alpha: &Vec<u8>, omega: &Vec<u8>) -> (c: CommandData)
    ensures
        c@ == clientinitiv_command(alpha@, omega@),
{
    let alpha_s = b64_encode(alpha);
    let omega_s = b64_encode(omega);
    let mut ot: Vec<u8> = Vec::new();
    ot.push(0x31);
    let ip: Vec<u8> = Vec::new();
    let mut args: Vec<(ArgKey, Vec<u8>)> = Vec::new();
    args.push((ArgKey::Alpha, alpha_s));
    args.push((ArgKey::Omega, omega_s));
    args.push((ArgKey::Ot, ot));
    args.push((ArgKey::Ip, ip));
    let c = CommandData { name: CommandName::ClientInitIv, args };
    proof {
        assert(c@.args =~= clientinitiv_command(alpha@, omega@).args);
        assert(c@ =~= clientinitiv_command(alpha@, omega@));
    }
    c
}

/// The decimal value of ASCII digit text, as the `aclid`/`clid`
/// arguments are read.
pub open spec fn digit_val(b: u8) -> nat {
    if 0x30 <= b <= 0x39 {
        (b - 0x30) as nat
    } else {
        0
    }
}

pub open spec fn dec_val(s: Seq<u8>) -> nat
    decreases s.len(),
{
    if s.len() == 0 {
        0
    } else {
        dec_val(s.drop_last()) * 10 + digit_val(s.last())
    }
}

pub open spec fn is_digits(s: Seq<u8>) -> bool {
    forall|i: int| 0 <= i < s.len() ==> 0x30 <= #[trigger] s[i] <= 0x39
}

/// How the engine reads a 16-bit id argument: decimal digits only,
/// rejecting empty text, other characters and overflow.
pub open spec fn parse_u16_v(s: Seq<u8>) -> Option<u16> {
    if s.len() > 0 && is_digits(s) && dec_val(s) <= 0xFFFF {
        Some(dec_val(s) as u16)
    } else {
        None
    }
}

/// A digit appended on the right can only grow the value.
proof fn lemma_dec_val_prefix_le(s: Seq<u8>, i: int)
    requires
        0 <= i <= s.len(),
    ensures
        dec_val(s.take(i)) <= dec_val(s),
    decreases s.len() - i,
{
    if i == s.len() {
        assert(s.take(i) =~= s);
    } else {
        lemma_dec_val_prefix_le(s, i + 1);
        assert(s.take(i + 1).drop_last() =~= s.take(i));
        assert(dec_val(s.take(i + 1)) == dec_val(s.take(i)) * 10 + digit_val(s.take(i + 1).last()));
    }
}

pub fn parse_u16(s: &Vec<u8>) -> (r: Option<u16>)
    ensures
        r == parse_u16_v(s@),
{
    if s.len() == 0 {
        return None;
    }
    let mut acc: u32 = 0;
    let mut i: usize = 0;
    while i < s.len()
        invariant
            0 <= i <= s@.len(),
            acc == dec_val(s@.take(i as int)),
            acc <= 0xFFFF,
            forall|j: int| 0 <= j < i ==> 0x30 <= #[trigger] s@[j] <= 0x39,
        decreases s@.len() - i,
    {
        let b = s[i];
        if b < 0x30 || b > 0x39 {
            return None;
        }
        proof {
            assert(s@.take(i as int + 1).drop_last() =~= s@.take(i as int));
            assert(s@.take(i as int + 1).last() == s@[i as int]);
        }
        acc = acc * 10 + (b - 0x30) as u32;
        if acc > 0xFFFF {
            proof {
                lemma_dec_val_prefix_le(s@, i as int + 1);
            }
            return None;
        }
        i += 1;
    }
    proof {
        assert(s@.take(i as int) =~= s@);
    }
    Some(acc as u16)
}

/// Whether `b` is `a` reversed byte for byte, as the Init1 check asks.
pub fn is_reversed(a: &Vec<u8>, b: &Vec<u8>) -> (r: bool)
    ensures
        r == (b@ =~= a@.reverse()),
{
    if a.len() != b.len() {
        return false;
    }
    let mut i: usize = 0;
    while i < a.len()
        invariant
            0 <= i <= a@.len(),
            a@.len() == b@.len(),
            forall|j: int| 0 <= j < i ==> b@[j] == a@[a@.len() - 1 - j],
        decreases a@.len() - i,
    {
        if b[i] != a[a.len() - 1 - i] {
            proof {
                assert(a@.reverse()[i as int] == a@[a@.len() - 1 - i]);
            }
            return false;
        }
        i += 1;
    }
    proof {
        assert(b@ =~= a@.reverse());
    }
    true
}

/// Whether two byte strings are equal, as the `alpha` echo check asks.
pub fn bytes_eq(a: &Vec<u8>, b: &Vec<u8>) -> (r: bool)
    ensures
        r == (a@ =~= b@),
{
    if a.len() != b.len() {
        return false;
    }
    let mut i: usize = 0;
    while i < a.len()
        invariant
            0 <= i <= a@.len(),
            a@.len() == b@.len(),
            forall|j: int| 0 <= j < i ==> a@[j] == b@[j],
        decreases a@.len() - i,
    {
        if a[i] != b[i] {
            return false;
        }
        i += 1;
    }
    proof {
        assert(a@ =~= b@);
    }
    true
}

} // verus!
