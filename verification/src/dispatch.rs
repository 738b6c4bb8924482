//! The per-request routing step of a connection's loop: from the decoded
//! request, the shared state and the current time to the reply text and the
//! side effect the caller must carry out — forwarding a write to every
//! registered replica sink, or sending the snapshot and retaining the
//! connection as a new sink.

use crate::handlers::{
    fullresync_text, handle_echo, handle_get, handle_info, handle_psync, handle_replconf,
    handle_set, info_text, set_entry,
};
use crate::replication::{make_snapshot_frame, snapshot_frame};
use crate::request::Request;
use crate::response::{bulk_wire, null_bulk_wire, simple_wire, ResponseEnum};
use crate::state::{cache_after_get, lookup, register_replica, EntryModel, SharedData};
use crate::text::{spec_lower, to_lowercase_ascii};
use crate::utils::{empty_rdb_bytes, get_empty_rdb, make_request, request_wire};
use vstd::prelude::*;

verus! {

/// What the caller must do after writing the reply: nothing; write the given
/// frame to every registered replica sink, in registration order, skipping
/// any sink that fails; or send the given snapshot frame and keep this very
/// connection as the newly registered sink.
pub enum Effect {
    NoEffect,
    Propagate(String),
    RegisterReplica(Vec<u8>),
}

/// One routed request: the reply to write back, if any, and the effect to
/// carry out afterwards. The reply is written before the effect is acted on,
/// so a client sees its write confirmed before any forwarding starts.
pub struct DispatchOutcome {
    pub response: Option<String>,
    pub effect: Effect,
}

/// The command name: the first argument, case-insensitively.
pub open spec fn spec_cmd(params: Seq<Seq<char>>) -> Seq<char> {
    spec_lower(params[0])
}

/// The arguments each command needs before it can be routed; a request that
/// falls short is not dispatched at all.
pub open spec fn spec_arity_ok(params: Seq<Seq<char>>) -> bool {
    params.len() > 0 && {
        let cmd = spec_cmd(params);
        &&& (cmd == "echo"@ ==> params.len() >= 2)
        &&& (cmd == "get"@ ==> params.len() >= 2)
        &&& (cmd == "set"@ ==> params.len() >= 3 && (params.len() > 3 && spec_lower(params[3])
            == "px"@ ==> params.len() >= 5))
    }
}

/// The command names that have handlers of their own are pairwise distinct,
/// stated once so that every routing proof can tell the branches apart.
proof fn lemma_commands_distinct()
    ensures
        "echo"@ != "set"@,
        "echo"@ != "get"@,
        "echo"@ != "info"@,
        "echo"@ != "replconf"@,
        "echo"@ != "psync"@,
        "set"@ != "get"@,
        "set"@ != "info"@,
        "set"@ != "replconf"@,
        "set"@ != "psync"@,
        "get"@ != "info"@,
        "get"@ != "replconf"@,
        "get"@ != "psync"@,
        "info"@ != "replconf"@,
        "info"@ != "psync"@,
        "replconf"@ != "psync"@,
{
    reveal_strlit("echo");
    reveal_strlit("set");
    reveal_strlit("get");
    reveal_strlit("info");
    reveal_strlit("replconf");
    reveal_strlit("psync");
    assert("echo"@.len() == 4);
    assert("set"@.len() == 3);
    assert("get"@.len() == 3);
    assert("info"@.len() == 4);
    assert("replconf"@.len() == 8);
    assert("psync"@.len() == 5);
    assert("set"@[0] == 's' && "get"@[0] == 'g');
    assert("echo"@[0] == 'e' && "info"@[0] == 'i');
}

/// Checks that a request is coherent and carries the arguments its command
/// needs, so it can be dispatched.
pub fn request_arity_ok(req: &Request) -> (b: bool)
    ensures
        b == (req.wf() && req.parameters@.len() > 0 && spec_arity_ok(req.params())),
{
    proof {
        lemma_commands_distinct();
    }
    let n = req.parameters.len();
    if req.parameter_count < 0 || req.parameter_count as usize != n || n == 0 {
        return false;
    }
    let cmd = to_lowercase_ascii(req.parameters[0].as_str());
    assert(cmd@ == spec_cmd(req.params()));
    assert(req.params().len() == req.parameters@.len());
    let echo = String::from_str("echo");
    let get = String::from_str("get");
    let set = String::from_str("set");
    if cmd == echo || cmd == get {
        n >= 2
    } else if cmd == set {
        if n < 3 {
            false
        } else if n > 3 {
            let option = to_lowercase_ascii(req.parameters[3].as_str());
            assert(option@ == spec_lower(req.params()[3]));
            let px = String::from_str("px");
            if option == px {
                n >= 5
            } else {
                true
            }
        } else {
            true
        }
    } else {
        true
    }
}

/// What the connection loop does with one decoded request before routing:
/// skip it, route it, or give the connection up.
#[derive(Debug, PartialEq, Eq, Structural, Clone, Copy)]
pub enum Disposition {
    Skip,
    Route,
    Reject,
}

/// Decides a decoded request's fate. A request whose recorded count is zero
/// is a no-op: it is skipped, never routed and never an error. Any other
/// request is routed when it is coherent and carries its command's
/// arguments, and refused otherwise.
pub fn classify_request(req: &Request) -> (d: Disposition)
    ensures
        match d {
            Disposition::Skip => req.parameter_count == 0,
            Disposition::Route => req.parameter_count != 0 && req.wf() && req.parameters@.len()
                > 0 && spec_arity_ok(req.params()),
            Disposition::Reject => req.parameter_count != 0 && !(req.wf()
                && req.parameters@.len() > 0 && spec_arity_ok(req.params())),
        },
{
    if req.parameter_count == 0 {
        Disposition::Skip
    } else if request_arity_ok(req) {
        Disposition::Route
    } else {
        Disposition::Reject
    }
}

/// The reply a request is owed, or nothing for a write on a node that is not
/// the leader: such a write is applied silently, as forwarded writes are on a
/// replica. Any command without a handler of its own falls back to a pong.
pub open spec fn spec_dispatch_response(
    params: Seq<Seq<char>>,
    sd0: SharedData,
    now: u128,
) -> Option<Seq<char>> {
    let cmd = spec_cmd(params);
    if cmd == "echo"@ {
        Some(bulk_wire(params[1]))
    } else if cmd == "set"@ {
        if sd0.is_leader() {
            Some(simple_wire("OK"@))
        } else {
            None
        }
    } else if cmd == "get"@ {
        Some(
            match lookup(sd0.cache(), params[1], now) {
                Some(v) => bulk_wire(v),
                None => null_bulk_wire(),
            },
        )
    } else if cmd == "info"@ {
        Some(bulk_wire(info_text(sd0.replication_info.role@)))
    } else if cmd == "replconf"@ {
        Some(simple_wire("OK"@))
    } else if cmd == "psync"@ {
        Some(
            simple_wire(
                fullresync_text(
                    sd0.replication_info.master_replid@,
                    sd0.replication_info.master_repl_offset as int,
                ),
            ),
        )
    } else {
        Some(simple_wire("PONG"@))
    }
}

/// The store after a request: only SET writes it and only GET evicts from
/// it; every other command leaves it alone.
pub open spec fn spec_dispatch_cache(params: Seq<Seq<char>>, sd0: SharedData, now: u128) -> Map<
    Seq<char>,
    EntryModel,
> {
    let cmd = spec_cmd(params);
    if cmd == "set"@ {
        sd0.cache().insert(params[1], set_entry(params, now))
    } else if cmd == "get"@ {
        cache_after_get(sd0.cache(), params[1], now)
    } else {
        sd0.cache()
    }
}

/// The sink registry after a request: only PSYNC grows it, by one handle.
pub open spec fn spec_dispatch_sinks(params: Seq<Seq<char>>, sd0: SharedData) -> Seq<u64> {
    if spec_cmd(params) == "psync"@ {
        sd0.replica_sinks@.push(sd0.replica_sinks@.len() as u64)
    } else {
        sd0.replica_sinks@
    }
}

/// Routes one decoded request: runs its handler against the shared state and
/// returns the reply and the effect the caller must carry out.
pub fn dispatch(req: &Request, shared_data: &mut SharedData, now_ms: u128) -> (r: DispatchOutcome)
    requires
        req.wf(),
        req.parameters@.len() > 0,
        spec_arity_ok(req.params()),
    ensures
        final(shared_data).cache() == spec_dispatch_cache(
            req.params(),
            *old(shared_data),
            now_ms,
        ),
        final(shared_data).replica_sinks@ == spec_dispatch_sinks(
            req.params(),
            *old(shared_data),
        ),
        final(shared_data).replication_info == old(shared_data).replication_info,
        match r.response {
            Some(resp) => spec_dispatch_response(req.params(), *old(shared_data), now_ms) == Some(
                resp@,
            ),
            None => spec_dispatch_response(req.params(), *old(shared_data), now_ms) is None,
        },
        match r.effect {
            Effect::Propagate(frame) => spec_cmd(req.params()) == "set"@ && old(
                shared_data,
            ).is_leader() && frame@ == request_wire(req.params()),
            Effect::RegisterReplica(payload) => spec_cmd(req.params()) == "psync"@ && payload@
                == snapshot_frame(empty_rdb_bytes()),
            Effect::NoEffect => !(spec_cmd(req.params()) == "set"@ && old(shared_data).is_leader())
                && spec_cmd(req.params()) != "psync"@,
        },
{
    proof {
        lemma_commands_distinct();
        reveal_strlit("master");
    }
    let cmd = to_lowercase_ascii(req.parameters[0].as_str());
    assert(cmd@ == spec_cmd(req.params()));
    if cmd == String::from_str("echo") {
        DispatchOutcome { response: Some(handle_echo(req)), effect: Effect::NoEffect }
    } else if cmd == String::from_str("set") {
        let response = handle_set(req, shared_data, now_ms);
        let master = String::from_str("master");
        if shared_data.replication_info.role == master {
            let frame = make_request(req);
            DispatchOutcome { response: Some(response), effect: Effect::Propagate(frame) }
        } else {
            DispatchOutcome { response: None, effect: Effect::NoEffect }
        }
    } else if cmd == String::from_str("get") {
        DispatchOutcome {
            response: Some(handle_get(req, shared_data, now_ms)),
            effect: Effect::NoEffect,
        }
    } else if cmd == String::from_str("info") {
        DispatchOutcome { response: Some(handle_info(req, shared_data)), effect: Effect::NoEffect }
    } else if cmd == String::from_str("replconf") {
        DispatchOutcome { response: Some(handle_replconf(req)), effect: Effect::NoEffect }
    } else if cmd == String::from_str("psync") {
        let response = handle_psync(req, shared_data);
        let payload = make_snapshot_frame(get_empty_rdb());
        register_replica(shared_data);
        DispatchOutcome { response: Some(response), effect: Effect::RegisterReplica(payload) }
    } else {
        DispatchOutcome {
            response: Some(ResponseEnum::PONG.as_string()),
            effect: Effect::NoEffect,
        }
    }
}

/// A write a leader executes reaches its replica intact: the frame the
/// leader propagates after a SET splits into lines that decode back to the
/// very same request; that request passes the dispatch checks; dispatched on
/// the replica it is applied silently, with no reply written back on the
/// link; and a read of the key on the replica afterwards yields the value
/// the leader wrote (a SET without TTL, so at any later time).
pub proof fn lemma_replicated_write_observed(
    replica: SharedData,
    cmd: Seq<char>,
    k: Seq<char>,
    v: Seq<char>,
    now: u128,
    later: u128,
)
    requires
        spec_lower(cmd) == "set"@,
        crate::framing::framable(cmd),
        crate::framing::framable(k),
        crate::framing::framable(v),
        !replica.is_leader(),
    ensures
        ({
            let params = seq![cmd, k, v];
            let lines = crate::framing::split_lines(request_wire(params));
            &&& lines == crate::framing::request_lines(params)
            &&& crate::request::spec_parse_count(lines[0]) == Some(3i32)
            &&& crate::request::spec_params_of_lines(3, lines.skip(1)) == Some(params)
            &&& spec_arity_ok(params)
            &&& spec_dispatch_response(params, replica, now) is None
            &&& lookup(spec_dispatch_cache(params, replica, now), k, later) == Some(v)
        }),
{
    let params = seq![cmd, k, v];
    crate::framing::lemma_request_round_trip(params);
    lemma_commands_distinct();
    crate::state::lemma_set_then_get(replica.cache(), k, v, now, None, later);
}

} // verus!
