//! Request encoding (for forwarding writes to replicas), the snapshot
//! payload a leader sends during full resynchronization, and a hex dump
//! helper.

use crate::num::{dec_str, u64_to_string};
use crate::request::Request;
use crate::response::{bulk_wire, crlf};
use crate::text::push_char;
use vstd::prelude::*;

verus! {

/// The wire form of a run of arguments: each one framed exactly like a bulk
/// reply, in order.
pub open spec fn params_wire(params: Seq<Seq<char>>) -> Seq<char>
    decreases params.len(),
{
    if params.len() == 0 {
        Seq::empty()
    } else {
        params_wire(params.drop_last()) + bulk_wire(params.last())
    }
}

/// The wire form of a whole request: the argument count line, then the
/// framed arguments.
pub open spec fn request_wire(params: Seq<Seq<char>>) -> Seq<char> {
    seq!['*'] + dec_str(params.len()) + crlf() + params_wire(params)
}

/// Encodes a request into its wire form, as a leader re-encodes a write
/// before forwarding it to its replicas.
pub fn make_request(req: &Request) -> (r: String)
    requires
        req.wf(),
    ensures
        r@ == request_wire(req.params()),
{
    proof {
        reveal_strlit("*");
        reveal_strlit("$");
        reveal_strlit("\r\n");
    }
    let n = req.parameters.len();
    let mut r = String::from_str("*");
    r.append(u64_to_string(n as u64).as_str());
    r.append("\r\n");
    let ghost header = seq!['*'] + dec_str(req.params().len()) + crlf();
    assert(r@ =~= header);
    let ghost ps = req.params();
    let mut i: usize = 0;
    while i < n
        invariant
            0 <= i <= n == req.parameters@.len(),
            ps == req.params(),
            ps.len() == n,
            r@ =~= header + params_wire(ps.take(i as int)),
        decreases n - i,
    {
        proof {
            reveal_strlit("$");
            reveal_strlit("\r\n");
        }
        let ghost pre = r@;
        let param = &req.parameters[i];
        let param_len = param.as_str().as_bytes().len();
        assert(param_len == crate::response::wire_byte_len(param@));
        r.append("$");
        r.append(u64_to_string(param_len as u64).as_str());
        r.append("\r\n");
        r.append(param.as_str());
        r.append("\r\n");
        proof {
            assert(param@ == ps[i as int]);
            assert(r@ =~= pre + bulk_wire(ps[i as int]));
            assert(ps.take(i + 1).drop_last() =~= ps.take(i as int));
            assert(ps.take(i + 1).last() == ps[i as int]);
            assert(r@ =~= header + params_wire(ps.take(i + 1)));
        }
        i = i + 1;
    }
    proof {
        assert(ps.take(n as int) =~= ps);
    }
    r
}

pub open spec fn is_hex_digit(c: char) -> bool {
    ('0' <= c && c <= '9') || ('a' <= c && c <= 'f') || ('A' <= c && c <= 'F')
}

/// The value of one hex digit, either case.
pub open spec fn hex_val(c: char) -> nat {
    if '0' <= c && c <= '9' {
        (c as u32 - '0' as u32) as nat
    } else if 'a' <= c && c <= 'f' {
        (c as u32 - 'a' as u32 + 10) as nat
    } else {
        (c as u32 - 'A' as u32 + 10) as nat
    }
}

/// What decoding a hex string yields: one byte for each pair of digits, or
/// nothing when the length is odd or any character is not a hex digit.
pub open spec fn spec_hex_decode(s: Seq<char>) -> Option<Seq<u8>> {
    if s.len() % 2 == 0 && (forall|i: int| 0 <= i < s.len() ==> is_hex_digit(#[trigger] s[i])) {
        Some(
            Seq::new(
                (s.len() / 2) as nat,
                |i: int| (16 * hex_val(s[2 * i]) + hex_val(s[2 * i + 1])) as u8,
            ),
        )
    } else {
        None
    }
}

/// Relies on hex::decode: a pair of hex digits (either case) becomes one
/// byte, high digit first; an odd-length input or one holding anything that
/// is not a hex digit is refused.
#[verifier::external_body]
fn hex_decode(s: &str) -> (r: Option<Vec<u8>>)
    ensures
        match r {
            Some(bytes) => spec_hex_decode(s@) == Some(bytes@),
            None => spec_hex_decode(s@) is None,
        },
{
    hex::decode(s).ok()
}

/// The hex spelling of the static empty snapshot payload a leader sends
/// after acknowledging PSYNC: an empty data dump, not a point-in-time copy
/// of the store.
pub open spec fn empty_rdb_hex() -> Seq<char> {
    "524544495330303131fa0972656469732d76657205372e322e30fa0a72656469732d62697473c040fa056374696d65c26d08bc65fa08757365642d6d656dc2b0c41000fa08616f662d62617365c000fff06e3bfec0ff5aa2"@
}

/// The bytes of the static empty snapshot payload.
pub open spec fn empty_rdb_bytes() -> Seq<u8> {
    match spec_hex_decode(empty_rdb_hex()) {
        Some(bytes) => bytes,
        None => Seq::<u8>::empty(),
    }
}

/// The decoded bytes of the static empty snapshot payload.
pub fn get_empty_rdb() -> (r: Vec<u8>)
    ensures
        r@ == empty_rdb_bytes(),
{
    let payload = hex_decode(
        "524544495330303131fa0972656469732d76657205372e322e30fa0a72656469732d62697473c040fa056374696d65c26d08bc65fa08757365642d6d656dc2b0c41000fa08616f662d62617365c000fff06e3bfec0ff5aa2",
    );
    match payload {
        Some(bytes) => bytes,
        None => Vec::new(),
    }
}

/// How one pair of characters of a hex dump is rendered: the byte it spells
/// if that is printable, a dot for an unprintable byte or for characters
/// that are not hex digits at all.
pub open spec fn hex_render_pair(c1: char, c2: char) -> char {
    if is_hex_digit(c1) && is_hex_digit(c2) {
        let b = 16 * hex_val(c1) + hex_val(c2);
        if 32 <= b && b <= 126 {
            b as char
        } else {
            '.'
        }
    } else {
        '.'
    }
}

/// The printable rendering of a hex string, pair by pair; a trailing odd
/// character is dropped.
pub open spec fn spec_hex_to_string(s: Seq<char>) -> Seq<char>
    decreases s.len(),
{
    if s.len() < 2 {
        Seq::empty()
    } else {
        seq![hex_render_pair(s[0], s[1])] + spec_hex_to_string(s.skip(2))
    }
}

fn hex_digit_val(c: char) -> (r: Option<u8>)
    ensures
        match r {
            Some(v) => is_hex_digit(c) && v == hex_val(c),
            None => !is_hex_digit(c),
        },
{
    let v = c as u32;
    if v >= 48 && v <= 57 {
        Some((v - 48) as u8)
    } else if v >= 97 && v <= 102 {
        Some((v - 97 + 10) as u8)
    } else if v >= 65 && v <= 70 {
        Some((v - 65 + 10) as u8)
    } else {
        None
    }
}

/// Renders a hex string as the printable characters its bytes spell, a dot
/// standing for anything unprintable or malformed.
pub fn hex_to_string(hex_code: &str) -> (r: String)
    ensures
        r@ == spec_hex_to_string(hex_code@),
{
    let n = hex_code.unicode_len();
    let mut r = String::new();
    let mut i: usize = 0;
    proof {
        assert(hex_code@.skip(0) =~= hex_code@);
        assert(r@ + spec_hex_to_string(hex_code@) =~= spec_hex_to_string(hex_code@));
    }
    while n - i >= 2
        invariant
            0 <= i <= n == hex_code@.len(),
            spec_hex_to_string(hex_code@) == r@ + spec_hex_to_string(hex_code@.skip(i as int)),
        decreases n - i,
    {
        let c1 = hex_code.get_char(i);
        let c2 = hex_code.get_char(i + 1);
        let rendered: char = match (hex_digit_val(c1), hex_digit_val(c2)) {
            (Some(v1), Some(v2)) => {
                let b = 16 * v1 + v2;
                if b >= 32 && b <= 126 {
                    b as char
                } else {
                    '.'
                }
            }
            _ => '.',
        };
        proof {
            let rest = hex_code@.skip(i as int);
            assert(rest[0] == hex_code@[i as int]);
            assert(rest[1] == hex_code@[i + 1]);
            assert(rest.skip(2) =~= hex_code@.skip(i + 2));
            assert(rendered == hex_render_pair(rest[0], rest[1]));
        }
        push_char(&mut r, rendered);
        i = i + 2;
    }
    proof {
        assert(spec_hex_to_string(hex_code@.skip(i as int)) =~= Seq::<char>::empty());
    }
    r
}

} // verus!
