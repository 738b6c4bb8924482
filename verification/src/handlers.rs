//! The command handlers. Each one takes the decoded request, whatever state
//! it reads or writes, and — where expiry matters — the current time in
//! milliseconds, and returns the exact reply text.

use crate::num::parse_u64_str;
use crate::num::{i32_to_string, parse_u64};
use crate::request::Request;
use crate::response::{bulk_wire, make_response, simple_wire, ResponseType};
use crate::state::{
    cache_after_get, lemma_cache_insert, lemma_cache_remove, lookup, EntryModel, SharedData, Value,
};
use crate::text::{spec_lower, to_lowercase_ascii};
use vstd::prelude::*;

verus! {

/// Replies to ECHO: the second argument, as a bulk string.
pub fn handle_echo(req: &Request) -> (r: String)
    requires
        req.parameters@.len() >= 2,
    ensures
        r@ == bulk_wire(req.params()[1]),
{
    let content = &req.parameters[1];
    make_response(content, ResponseType::BulkString)
}

/// Replies to REPLCONF: always a plain acknowledgement.
pub fn handle_replconf(_req: &Request) -> (r: String)
    ensures
        r@ == simple_wire("OK"@),
{
    proof {
        reveal_strlit("OK");
    }
    let content = String::from_str("OK");
    make_response(&content, ResponseType::SimpleString)
}

/// What the TTL argument of SET means: an unsigned number of milliseconds
/// (a leading `+` is accepted, as integer parsing accepts it); anything that
/// does not parse degrades to zero, an entry that expires on its first
/// subsequent read.
pub open spec fn spec_parse_ttl(s: Seq<char>) -> u64 {
    let digits = if s.len() > 0 && s[0] == '+' {
        s.drop_first()
    } else {
        s
    };
    match parse_u64_str(digits) {
        Some(v) => v,
        None => 0,
    }
}

fn parse_ttl(s: &str) -> (r: u64)
    ensures
        r == spec_parse_ttl(s@),
{
    let n = s.unicode_len();
    let digits = if n > 0 && s.get_char(0) == '+' {
        let d = s.substring_char(1, n);
        assert(d@ =~= s@.drop_first());
        d
    } else {
        s
    };
    match parse_u64(digits) {
        Some(v) => v,
        None => 0,
    }
}

/// The TTL a SET request carries: present exactly when a `px` option
/// follows the value.
pub open spec fn spec_set_ttl(params: Seq<Seq<char>>) -> Option<u64> {
    if params.len() > 3 && spec_lower(params[3]) == "px"@ {
        Some(spec_parse_ttl(params[4]))
    } else {
        None
    }
}

/// The entry a SET request writes at time `now`.
pub open spec fn set_entry(params: Seq<Seq<char>>, now: u128) -> EntryModel {
    EntryModel { data: params[2], created_at: now, expiry: spec_set_ttl(params) }
}

/// Handles SET: writes the entry unconditionally, replacing any prior one
/// for the key whatever its TTL was, and confirms.
pub fn handle_set(req: &Request, shared_data: &mut SharedData, now_ms: u128) -> (r: String)
    requires
        req.wf(),
        req.parameters@.len() >= 3,
        req.parameters@.len() > 3 && spec_lower(req.params()[3]) == "px"@
            ==> req.parameters@.len() >= 5,
    ensures
        final(shared_data).cache() == old(shared_data).cache().insert(
            req.params()[1],
            set_entry(req.params(), now_ms),
        ),
        final(shared_data).replication_info == old(shared_data).replication_info,
        final(shared_data).replica_sinks == old(shared_data).replica_sinks,
        r@ == simple_wire("OK"@),
{
    proof {
        reveal_strlit("px");
        reveal_strlit("OK");
    }
    let mut val = Value { data: req.parameters[2].clone(), created_at: now_ms, expiry: None };
    if req.parameter_count > 3 {
        let command = to_lowercase_ascii(req.parameters[3].as_str());
        let px = String::from_str("px");
        if command == px {
            val.expiry = Some(parse_ttl(req.parameters[4].as_str()));
        }
    }
    assert(val@ == set_entry(req.params(), now_ms));
    let key = req.parameters[1].clone();
    proof {
        lemma_cache_insert(shared_data.redis_cache@, key@, val);
    }
    shared_data.redis_cache.insert(key, val);
    let content = String::from_str("OK");
    make_response(&content, ResponseType::SimpleString)
}

/// Handles GET: the stored value as a bulk string, or the null bulk reply
/// for a key that is absent or has expired; an expired entry is removed on
/// this read and on no other occasion.
pub fn handle_get(req: &Request, shared_data: &mut SharedData, now_ms: u128) -> (r: String)
    requires
        req.parameters@.len() >= 2,
    ensures
        final(shared_data).cache() == cache_after_get(
            old(shared_data).cache(),
            req.params()[1],
            now_ms,
        ),
        final(shared_data).replication_info == old(shared_data).replication_info,
        final(shared_data).replica_sinks == old(shared_data).replica_sinks,
        r@ == match lookup(old(shared_data).cache(), req.params()[1], now_ms) {
            Some(v) => bulk_wire(v),
            None => crate::response::null_bulk_wire(),
        },
{
    let key = &req.parameters[1];
    let found: Option<(bool, String)> = match shared_data.redis_cache.get(key.as_str()) {
        Some(entry) => {
            let expired = match entry.expiry {
                Some(ms) => now_ms > entry.created_at && now_ms - entry.created_at > ms as u128,
                None => false,
            };
            Some((expired, entry.data.clone()))
        }
        None => None,
    };
    let empty = String::new();
    match found {
        None => make_response(&empty, ResponseType::NullBulkString),
        Some((true, _)) => {
            proof {
                lemma_cache_remove(shared_data.redis_cache@, key@);
            }
            shared_data.redis_cache.remove(key.as_str());
            make_response(&empty, ResponseType::NullBulkString)
        }
        Some((false, data)) => make_response(&data, ResponseType::BulkString),
    }
}

/// The body of the INFO reply: the node's role, and on the leader also the
/// static replication id and offset.
pub open spec fn info_text(role: Seq<char>) -> Seq<char> {
    "role:"@ + role + if role == "master"@ {
        "\nmaster_replid:8371b4fb1155b71f4a04d3e1bc3e18c4a990aeeb\nmaster_repl_offset:0\n"@
    } else {
        Seq::<char>::empty()
    }
}

/// Handles INFO: the role line, with the leader's extra fields, as one bulk
/// string.
pub fn handle_info(_req: &Request, shared_data: &SharedData) -> (r: String)
    ensures
        r@ == bulk_wire(info_text(shared_data.replication_info.role@)),
{
    proof {
        reveal_strlit("role:");
        reveal_strlit("master");
    }
    let role = &shared_data.replication_info.role;
    let mut content = String::from_str("role:");
    content.append(role.as_str());
    let master = String::from_str("master");
    if *role == master {
        content.append(
            "\nmaster_replid:8371b4fb1155b71f4a04d3e1bc3e18c4a990aeeb\nmaster_repl_offset:0\n",
        );
    }
    assert(content@ =~= info_text(shared_data.replication_info.role@));
    make_response(&content, ResponseType::BulkString)
}

/// The acknowledgement line a leader sends for PSYNC before the snapshot.
pub open spec fn fullresync_text(replid: Seq<char>, offset: int) -> Seq<char> {
    "FULLRESYNC "@ + replid + " "@ + crate::num::dec_str_signed(offset)
}

/// Handles PSYNC on the leader: the full-resynchronization acknowledgement
/// carrying the static replication id and offset. The snapshot payload and
/// the registration of the sink follow separately.
pub fn handle_psync(_req: &Request, shared_data: &SharedData) -> (r: String)
    ensures
        r@ == simple_wire(
            fullresync_text(
                shared_data.replication_info.master_replid@,
                shared_data.replication_info.master_repl_offset as int,
            ),
        ),
{
    proof {
        reveal_strlit("FULLRESYNC ");
        reveal_strlit(" ");
    }
    let mut content = String::from_str("FULLRESYNC ");
    content.append(shared_data.replication_info.master_replid.as_str());
    content.append(" ");
    content.append(i32_to_string(shared_data.replication_info.master_repl_offset).as_str());
    make_response(&content, ResponseType::SimpleString)
}

} // verus!
