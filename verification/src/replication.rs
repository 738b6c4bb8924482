//! Replica-side replication: the fixed handshake a replica runs against its
//! leader before it starts streaming, and the snapshot payload framing used
//! on the leader side. The caller performs the socket work; every decision —
//! which message to send, whether a reply is acceptable, what the next state
//! is — is taken here.

use crate::num::{all_dec_digits, dec_str, digits_val, parse_u64, u64_to_string};
use crate::response::simple_wire;
use crate::text::{spec_trim, trim_line};
use vstd::prelude::*;

verus! {

/// The canned request frames a replica sends during the handshake. The
/// listening-port frame is a template: its placeholder is filled with the
/// replica's own port.
pub enum RequestEnum {
    PING,
    REPLCONF1,
    REPLCONF2,
    PSYNC,
}

pub open spec fn ping_wire() -> Seq<char> {
    "*1\r\n$4\r\nPING\r\n"@
}

pub open spec fn replconf_port_template() -> Seq<char> {
    "*3\r\n$8\r\nREPLCONF\r\n$14\r\nlistening-port\r\n$4\r\n{}\r\n"@
}

pub open spec fn replconf_capa_wire() -> Seq<char> {
    "*3\r\n$8\r\nREPLCONF\r\n$4\r\ncapa\r\n$6\r\npsync2\r\n"@
}

pub open spec fn psync_wire() -> Seq<char> {
    "*3\r\n$5\r\nPSYNC\r\n$1\r\n?\r\n$2\r\n-1\r\n"@
}

impl RequestEnum {
    pub fn as_string(&self) -> (r: String)
        ensures
            r@ == match *self {
                RequestEnum::PING => ping_wire(),
                RequestEnum::REPLCONF1 => replconf_port_template(),
                RequestEnum::REPLCONF2 => replconf_capa_wire(),
                RequestEnum::PSYNC => psync_wire(),
            },
    {
        match self {
            RequestEnum::PING => String::from_str("*1\r\n$4\r\nPING\r\n"),
            RequestEnum::REPLCONF1 => String::from_str(
                "*3\r\n$8\r\nREPLCONF\r\n$14\r\nlistening-port\r\n$4\r\n{}\r\n",
            ),
            RequestEnum::REPLCONF2 => String::from_str(
                "*3\r\n$8\r\nREPLCONF\r\n$4\r\ncapa\r\n$6\r\npsync2\r\n",
            ),
            RequestEnum::PSYNC => String::from_str("*3\r\n$5\r\nPSYNC\r\n$1\r\n?\r\n$2\r\n-1\r\n"),
        }
    }
}

/// The listening-port frame with the replica's port filled in.
pub open spec fn replconf_port_wire(port: Seq<char>) -> Seq<char> {
    "*3\r\n$8\r\nREPLCONF\r\n$14\r\nlistening-port\r\n$4\r\n"@ + port + "\r\n"@
}

fn replconf_port_message(port: &str) -> (r: String)
    ensures
        r@ == replconf_port_wire(port@),
{
    let mut r = String::from_str("*3\r\n$8\r\nREPLCONF\r\n$14\r\nlistening-port\r\n$4\r\n");
    r.append(port);
    r.append("\r\n");
    r
}

/// Where a replica's handshake session stands. Each waiting state names the
/// reply it expects; any unexpected reply aborts the session with no retry.
#[derive(Debug, PartialEq, Eq, Structural, Clone, Copy)]
pub enum HandshakeState {
    Init,
    AwaitPong,
    AwaitReplconf1,
    AwaitReplconf2,
    AwaitPsyncAck,
    AwaitingSnapshot,
    Streaming,
    Failed,
}

/// The handshake transition: from the state and the reply line just read, the
/// next state and the frame to send, if any. The PSYNC acknowledgement line
/// is accepted whatever it says; the snapshot that follows is read by length,
/// not matched.
pub open spec fn spec_handshake_step(
    state: HandshakeState,
    reply: Seq<char>,
    port: Seq<char>,
) -> (HandshakeState, Option<Seq<char>>) {
    match state {
        HandshakeState::AwaitPong => if reply == simple_wire("PONG"@) {
            (HandshakeState::AwaitReplconf1, Some(replconf_port_wire(port)))
        } else {
            (HandshakeState::Failed, None)
        },
        HandshakeState::AwaitReplconf1 => if reply == simple_wire("OK"@) {
            (HandshakeState::AwaitReplconf2, Some(replconf_capa_wire()))
        } else {
            (HandshakeState::Failed, None)
        },
        HandshakeState::AwaitReplconf2 => if reply == simple_wire("OK"@) {
            (HandshakeState::AwaitPsyncAck, Some(psync_wire()))
        } else {
            (HandshakeState::Failed, None)
        },
        HandshakeState::AwaitPsyncAck => (HandshakeState::AwaitingSnapshot, None),
        HandshakeState::AwaitingSnapshot => (HandshakeState::Streaming, None),
        HandshakeState::Streaming => (HandshakeState::Streaming, None),
        HandshakeState::Init => (HandshakeState::Failed, None),
        HandshakeState::Failed => (HandshakeState::Failed, None),
    }
}

/// Opens a handshake session: the session waits for the pong of the ping it
/// sends first.
pub fn handshake_start() -> (r: (HandshakeState, String))
    ensures
        r.0 == HandshakeState::AwaitPong,
        r.1@ == ping_wire(),
{
    (HandshakeState::AwaitPong, RequestEnum::PING.as_string())
}

/// Advances a handshake session by one reply line.
pub fn handshake_step(state: HandshakeState, reply: &String, port: &str) -> (r: (
    HandshakeState,
    Option<String>,
))
    ensures
        r.0 == spec_handshake_step(state, reply@, port@).0,
        match r.1 {
            Some(m) => spec_handshake_step(state, reply@, port@).1 == Some(m@),
            None => spec_handshake_step(state, reply@, port@).1 is None,
        },
{
    proof {
        reveal_strlit("PONG");
        reveal_strlit("OK");
        reveal_strlit("+PONG\r\n");
        reveal_strlit("+OK\r\n");
    }
    let pong = String::from_str("+PONG\r\n");
    let ok = String::from_str("+OK\r\n");
    proof {
        assert(pong@ =~= simple_wire("PONG"@));
        assert(ok@ =~= simple_wire("OK"@));
    }
    match state {
        HandshakeState::AwaitPong => {
            if *reply == pong {
                (HandshakeState::AwaitReplconf1, Some(replconf_port_message(port)))
            } else {
                (HandshakeState::Failed, None)
            }
        }
        HandshakeState::AwaitReplconf1 => {
            if *reply == ok {
                (HandshakeState::AwaitReplconf2, Some(RequestEnum::REPLCONF2.as_string()))
            } else {
                (HandshakeState::Failed, None)
            }
        }
        HandshakeState::AwaitReplconf2 => {
            if *reply == ok {
                (HandshakeState::AwaitPsyncAck, Some(RequestEnum::PSYNC.as_string()))
            } else {
                (HandshakeState::Failed, None)
            }
        }
        HandshakeState::AwaitPsyncAck => (HandshakeState::AwaitingSnapshot, None),
        HandshakeState::AwaitingSnapshot => (HandshakeState::Streaming, None),
        HandshakeState::Streaming => (HandshakeState::Streaming, None),
        HandshakeState::Init => (HandshakeState::Failed, None),
        HandshakeState::Failed => (HandshakeState::Failed, None),
    }
}

/// What the snapshot length line announces: the integer after the marker
/// byte of the trimmed line; anything malformed, empty or out of range
/// degrades to zero rather than failing.
pub open spec fn spec_snapshot_len(line: Seq<char>) -> usize {
    let t = spec_trim(line);
    if t.len() == 0 {
        0
    } else {
        let body = t.drop_first();
        let digits = if body.len() > 0 && body[0] == '+' {
            body.drop_first()
        } else {
            body
        };
        if digits.len() > 0 && all_dec_digits(digits) && digits_val(digits) <= usize::MAX {
            digits_val(digits) as usize
        } else {
            0
        }
    }
}

/// Reads the announced length out of the snapshot's length line; the caller
/// then reads exactly that many payload bytes.
pub fn snapshot_length(line: &str) -> (n: usize)
    ensures
        n == spec_snapshot_len(line@),
{
    let t = trim_line(line);
    let t_len = t.as_str().unicode_len();
    if t_len == 0 {
        return 0;
    }
    let body = t.as_str().substring_char(1, t_len);
    assert(body@ =~= spec_trim(line@).drop_first());
    let body_len = t_len - 1;
    let digits = if body_len > 0 && body.get_char(0) == '+' {
        let d = body.substring_char(1, body_len);
        assert(d@ =~= body@.drop_first());
        d
    } else {
        body
    };
    match parse_u64(digits) {
        Some(v) => {
            if v <= usize::MAX as u64 {
                v as usize
            } else {
                0
            }
        }
        None => 0,
    }
}

/// The characters of an ASCII sequence, byte for byte.
pub open spec fn ascii_bytes(s: Seq<char>) -> Seq<u8> {
    Seq::new(s.len(), |i: int| s[i] as u8)
}

/// The frame around a snapshot payload: a length line (marker, decimal byte
/// count, terminator) and then the raw bytes, with no trailing terminator.
pub open spec fn snapshot_frame(rdb: Seq<u8>) -> Seq<u8> {
    seq![36u8] + ascii_bytes(dec_str(rdb.len())) + seq![13u8, 10u8] + rdb
}

/// Wraps a snapshot payload in its length-prefixed frame.
pub fn make_snapshot_frame(rdb: Vec<u8>) -> (r: Vec<u8>)
    ensures
        r@ == snapshot_frame(rdb@),
{
    let ghost rdb_view = rdb@;
    let mut out: Vec<u8> = Vec::new();
    out.push(36);
    let len_str = u64_to_string(rdb.len() as u64);
    proof {
        crate::num::lemma_dec_str_digits(rdb_view.len());
        assert(vstd::utf8::is_ascii_chars(len_str@));
        vstd::utf8::is_ascii_chars_encode_utf8(len_str@);
    }
    let mut len_bytes = len_str.as_str().as_bytes_vec();
    proof {
        assert(len_bytes@ =~= ascii_bytes(dec_str(rdb_view.len())));
    }
    out.append(&mut len_bytes);
    out.push(13);
    out.push(10);
    let mut payload = rdb;
    out.append(&mut payload);
    proof {
        assert(out@ =~= snapshot_frame(rdb_view));
    }
    out
}

} // verus!
