//! Encoding of replies: a simple line, a length-prefixed bulk string, or the
//! null bulk sentinel. Each variant has one exact wire form.

use crate::num::{dec_str, u64_to_string};
use vstd::prelude::*;

verus! {

/// The two-byte line terminator of the wire protocol.
pub open spec fn crlf() -> Seq<char> {
    seq!['\r', '\n']
}

/// `+<text>` and a terminator.
pub open spec fn simple_wire(text: Seq<char>) -> Seq<char> {
    seq!['+'] + text + crlf()
}

/// How many bytes a piece of text occupies on the wire: the length of its
/// UTF-8 encoding, which is what every length header counts.
pub open spec fn wire_byte_len(s: Seq<char>) -> nat {
    vstd::utf8::encode_utf8(s).len()
}

/// `$<len>`, a terminator, the content, a terminator; the length counts the
/// content's bytes, not its characters.
pub open spec fn bulk_wire(content: Seq<char>) -> Seq<char> {
    seq!['$'] + dec_str(wire_byte_len(content)) + crlf() + content + crlf()
}

/// `$-1` and a terminator; no payload follows.
pub open spec fn null_bulk_wire() -> Seq<char> {
    seq!['$', '-', '1', '\r', '\n']
}

pub enum ResponseType {
    SimpleString,
    BulkString,
    NullBulkString,
}

/// The wire form of a reply of the given kind carrying `content` (which the
/// null bulk form ignores).
pub open spec fn response_wire(content: Seq<char>, content_type: ResponseType) -> Seq<char> {
    match content_type {
        ResponseType::SimpleString => simple_wire(content),
        ResponseType::BulkString => bulk_wire(content),
        ResponseType::NullBulkString => null_bulk_wire(),
    }
}

impl ResponseType {
    /// The marker byte that opens a reply of this kind.
    pub fn as_str(&self) -> (r: &'static str)
        ensures
            r@ == match *self {
                ResponseType::SimpleString => seq!['+'],
                ResponseType::BulkString => seq!['$'],
                ResponseType::NullBulkString => seq!['$'],
            },
    {
        proof {
            reveal_strlit("+");
            reveal_strlit("$");
        }
        match self {
            ResponseType::SimpleString => "+",
            ResponseType::BulkString => "$",
            ResponseType::NullBulkString => "$",
        }
    }
}

/// Builds the wire form of one reply.
pub fn make_response(content: &String, content_type: ResponseType) -> (r: String)
    ensures
        r@ == response_wire(content@, content_type),
{
    proof {
        reveal_strlit("\r\n");
        reveal_strlit("$-1\r\n");
    }
    match content_type {
        ResponseType::BulkString => {
            let content_length = content.as_str().as_bytes().len();
            assert(content_length == wire_byte_len(content@));
            let mut r = String::from_str(content_type.as_str());
            r.append(u64_to_string(content_length as u64).as_str());
            r.append("\r\n");
            r.append(content.as_str());
            r.append("\r\n");
            assert(r@ =~= bulk_wire(content@));
            r
        }
        ResponseType::NullBulkString => {
            let r = String::from_str("$-1\r\n");
            assert(r@ =~= null_bulk_wire());
            r
        }
        ResponseType::SimpleString => {
            let mut r = String::from_str(content_type.as_str());
            r.append(content.as_str());
            r.append("\r\n");
            assert(r@ =~= simple_wire(content@));
            r
        }
    }
}

/// The two canned replies the server writes without building them.
pub enum ResponseEnum {
    OK,
    PONG,
}

impl ResponseEnum {
    pub fn as_string(&self) -> (r: String)
        ensures
            r@ == match *self {
                ResponseEnum::OK => simple_wire("OK"@),
                ResponseEnum::PONG => simple_wire("PONG"@),
            },
    {
        proof {
            reveal_strlit("+OK\r\n");
            reveal_strlit("+PONG\r\n");
            reveal_strlit("OK");
            reveal_strlit("PONG");
        }
        match self {
            ResponseEnum::OK => {
                let r = String::from_str("+OK\r\n");
                assert(r@ =~= simple_wire("OK"@));
                r
            }
            ResponseEnum::PONG => {
                let r = String::from_str("+PONG\r\n");
                assert(r@ =~= simple_wire("PONG"@));
                r
            }
        }
    }
}

} // verus!
