use minikv::dispatch::{classify_request, dispatch, request_arity_ok, Disposition, Effect};
use minikv::handlers::{handle_get, handle_info, handle_psync, handle_replconf};
use minikv::replication::{handshake_start, handshake_step, make_snapshot_frame, snapshot_length};
use minikv::request::{parse_count_line, request_from_lines};
use minikv::utils::get_empty_rdb;
use minikv::{HandshakeState, ReplicationInfo, Request, RequestEnum, SharedData};

fn req(args: &[&str]) -> Request {
    Request {
        parameter_count: args.len() as i32,
        parameters: args.iter().map(|s| s.to_string()).collect(),
    }
}

fn node(role: &str) -> SharedData {
    SharedData::new(ReplicationInfo {
        replica_info: String::new(),
        role: role.to_string(),
        master_replid: "8371b4fb1155b71f4a04d3e1bc3e18c4a990aeeb".to_string(),
        master_repl_offset: 0,
    })
}

/// Cuts a byte-for-byte frame into lines the way a buffered line reader
/// hands them over: each line keeps its terminating newline.
fn read_lines(frame: &str) -> Vec<String> {
    let mut lines = Vec::new();
    let mut current = String::new();
    for c in frame.chars() {
        current.push(c);
        if c == '\n' {
            lines.push(current.clone());
            current.clear();
        }
    }
    if !current.is_empty() {
        lines.push(current);
    }
    lines
}

#[test]
fn info_on_leader_lists_replication_fields() {
    let sd = node("master");
    let text = "role:master\nmaster_replid:8371b4fb1155b71f4a04d3e1bc3e18c4a990aeeb\nmaster_repl_offset:0\n";
    let expected = format!("${}\r\n{}\r\n", text.len(), text);
    assert_eq!(handle_info(&req(&["INFO"]), &sd), expected);
}

#[test]
fn info_on_replica_lists_role_alone() {
    let sd = node("slave");
    assert_eq!(handle_info(&req(&["INFO"]), &sd), "$10\r\nrole:slave\r\n");
}

#[test]
fn replconf_is_always_acknowledged() {
    assert_eq!(handle_replconf(&req(&["REPLCONF", "listening-port", "6380"])), "+OK\r\n");
}

#[test]
fn psync_acknowledges_with_static_id_and_offset() {
    let sd = node("master");
    assert_eq!(
        handle_psync(&req(&["PSYNC", "?", "-1"]), &sd),
        "+FULLRESYNC 8371b4fb1155b71f4a04d3e1bc3e18c4a990aeeb 0\r\n"
    );
}

#[test]
fn empty_rdb_payload_decodes() {
    let rdb = get_empty_rdb();
    assert_eq!(rdb.len(), 88);
    assert_eq!(&rdb[..9], b"REDIS0011");
    assert_eq!(rdb[87], 0xa2);
}

#[test]
fn snapshot_frame_is_length_prefixed() {
    let frame = make_snapshot_frame(get_empty_rdb());
    assert_eq!(&frame[..5], b"$88\r\n");
    assert_eq!(frame.len(), 5 + 88);
}

#[test]
fn snapshot_length_reads_the_announced_size() {
    assert_eq!(snapshot_length("$88\r\n"), 88);
    assert_eq!(snapshot_length("$0\r\n"), 0);
    assert_eq!(snapshot_length("$\r\n"), 0);
    assert_eq!(snapshot_length(""), 0);
    assert_eq!(snapshot_length("$nope\r\n"), 0);
}

#[test]
fn handshake_frames_are_exact() {
    assert_eq!(RequestEnum::PING.as_string(), "*1\r\n$4\r\nPING\r\n");
    assert_eq!(
        RequestEnum::REPLCONF1.as_string(),
        "*3\r\n$8\r\nREPLCONF\r\n$14\r\nlistening-port\r\n$4\r\n{}\r\n"
    );
    assert_eq!(
        RequestEnum::REPLCONF2.as_string(),
        "*3\r\n$8\r\nREPLCONF\r\n$4\r\ncapa\r\n$6\r\npsync2\r\n"
    );
    assert_eq!(RequestEnum::PSYNC.as_string(), "*3\r\n$5\r\nPSYNC\r\n$1\r\n?\r\n$2\r\n-1\r\n");
}

#[test]
fn handshake_walks_to_streaming() {
    let (state, first) = handshake_start();
    assert_eq!(state, HandshakeState::AwaitPong);
    assert_eq!(first, "*1\r\n$4\r\nPING\r\n");

    let (state, msg) = handshake_step(state, &"+PONG\r\n".to_string(), "6380");
    assert_eq!(state, HandshakeState::AwaitReplconf1);
    assert_eq!(
        msg.unwrap(),
        "*3\r\n$8\r\nREPLCONF\r\n$14\r\nlistening-port\r\n$4\r\n6380\r\n"
    );

    let (state, msg) = handshake_step(state, &"+OK\r\n".to_string(), "6380");
    assert_eq!(state, HandshakeState::AwaitReplconf2);
    assert_eq!(msg.unwrap(), "*3\r\n$8\r\nREPLCONF\r\n$4\r\ncapa\r\n$6\r\npsync2\r\n");

    let (state, msg) = handshake_step(state, &"+OK\r\n".to_string(), "6380");
    assert_eq!(state, HandshakeState::AwaitPsyncAck);
    assert_eq!(msg.unwrap(), "*3\r\n$5\r\nPSYNC\r\n$1\r\n?\r\n$2\r\n-1\r\n");

    let (state, msg) = handshake_step(
        state,
        &"+FULLRESYNC 8371b4fb1155b71f4a04d3e1bc3e18c4a990aeeb 0\r\n".to_string(),
        "6380",
    );
    assert_eq!(state, HandshakeState::AwaitingSnapshot);
    assert!(msg.is_none());

    let (state, msg) = handshake_step(state, &"$88\r\n".to_string(), "6380");
    assert_eq!(state, HandshakeState::Streaming);
    assert!(msg.is_none());
}

#[test]
fn unexpected_reply_aborts_the_handshake() {
    let (state, _) = handshake_start();
    let (state, msg) = handshake_step(state, &"-ERR nope\r\n".to_string(), "6380");
    assert_eq!(state, HandshakeState::Failed);
    assert!(msg.is_none());
}

#[test]
fn unknown_command_falls_back_to_pong() {
    let mut sd = node("master");
    let r = req(&["FOO"]);
    assert!(request_arity_ok(&r));
    let out = dispatch(&r, &mut sd, 0);
    assert_eq!(out.response.unwrap(), "+PONG\r\n");
    assert!(matches!(out.effect, Effect::NoEffect));
}

#[test]
fn arity_check_rejects_short_requests() {
    assert!(!request_arity_ok(&req(&["ECHO"])));
    assert!(!request_arity_ok(&req(&["GET"])));
    assert!(!request_arity_ok(&req(&["SET", "k"])));
    assert!(!request_arity_ok(&req(&["SET", "k", "v", "PX"])));
    assert!(request_arity_ok(&req(&["SET", "k", "v", "PX", "100"])));
    assert!(request_arity_ok(&req(&["SET", "k", "v", "EX"])));
    assert!(!request_arity_ok(&req(&[])));
    let incoherent = Request { parameter_count: 2, parameters: vec!["PING".to_string()] };
    assert!(!request_arity_ok(&incoherent));
}

#[test]
fn leader_set_confirms_then_propagates() {
    let mut sd = node("master");
    let out = dispatch(&req(&["SET", "foo", "bar"]), &mut sd, 0);
    assert_eq!(out.response.unwrap(), "+OK\r\n");
    match out.effect {
        Effect::Propagate(frame) => {
            assert_eq!(frame, "*3\r\n$3\r\nSET\r\n$3\r\nfoo\r\n$3\r\nbar\r\n")
        }
        _ => panic!("a leader's SET must be propagated"),
    }
}

#[test]
fn replica_applies_set_silently() {
    let mut sd = node("slave");
    let out = dispatch(&req(&["SET", "foo", "bar"]), &mut sd, 0);
    assert!(out.response.is_none());
    assert!(matches!(out.effect, Effect::NoEffect));
    assert_eq!(handle_get(&req(&["GET", "foo"]), &mut sd, 0), "$3\r\nbar\r\n");
}

#[test]
fn psync_registers_a_sink_per_replica() {
    let mut sd = node("master");
    let out = dispatch(&req(&["PSYNC", "?", "-1"]), &mut sd, 0);
    assert_eq!(
        out.response.unwrap(),
        "+FULLRESYNC 8371b4fb1155b71f4a04d3e1bc3e18c4a990aeeb 0\r\n"
    );
    match out.effect {
        Effect::RegisterReplica(payload) => {
            assert_eq!(&payload[..5], b"$88\r\n");
            assert_eq!(payload.len(), 93);
        }
        _ => panic!("PSYNC must register the connection as a sink"),
    }
    assert_eq!(sd.replica_sinks, vec![0]);
    dispatch(&req(&["PSYNC", "?", "-1"]), &mut sd, 0);
    assert_eq!(sd.replica_sinks, vec![0, 1]);
}

#[test]
fn propagated_write_is_observed_on_the_replica() {
    let mut leader = node("master");
    let out = dispatch(&req(&["SET", "foo", "bar"]), &mut leader, 100);
    let frame = match out.effect {
        Effect::Propagate(frame) => frame,
        _ => panic!("a leader's SET must be propagated"),
    };

    let lines = read_lines(&frame);
    let count = parse_count_line(&lines[0]).unwrap();
    let rest: Vec<String> = lines[1..].to_vec();
    let decoded = request_from_lines(count, &rest).unwrap();
    assert_eq!(decoded.parameters, vec!["SET", "foo", "bar"]);

    let mut replica = node("slave");
    assert!(request_arity_ok(&decoded));
    let applied = dispatch(&decoded, &mut replica, 200);
    assert!(applied.response.is_none());
    assert_eq!(handle_get(&req(&["GET", "foo"]), &mut replica, 300), "$3\r\nbar\r\n");
}

#[test]
fn snapshot_length_ignores_the_marker_byte() {
    assert_eq!(snapshot_length("x88\r\n"), 88);
    assert_eq!(snapshot_length(" $12 \r\n"), 12);
}

#[test]
fn late_handshake_replies_are_not_matched() {
    let ack = handshake_step(HandshakeState::AwaitPsyncAck, &"anything at all\r\n".to_string(), "1");
    assert_eq!(ack.0, HandshakeState::AwaitingSnapshot);
    let refusal = handshake_step(HandshakeState::AwaitReplconf2, &"+PONG\r\n".to_string(), "1");
    assert_eq!(refusal.0, HandshakeState::Failed);
}

#[test]
fn dispatch_routes_reads_and_info() {
    let mut sd = node("master");
    dispatch(&req(&["set", "k", "v", "px", "100"]), &mut sd, 1000);
    let hit = dispatch(&req(&["GET", "k"]), &mut sd, 1050);
    assert_eq!(hit.response.unwrap(), "$1\r\nv\r\n");
    let miss = dispatch(&req(&["GET", "k"]), &mut sd, 1200);
    assert_eq!(miss.response.unwrap(), "$-1\r\n");
    let info = dispatch(&req(&["INFO"]), &mut sd, 0);
    assert!(info.response.unwrap().contains("role:master"));
    let ack = dispatch(&req(&["REPLCONF", "capa", "psync2"]), &mut sd, 0);
    assert_eq!(ack.response.unwrap(), "+OK\r\n");
}

#[test]
fn zero_argument_requests_are_skipped_not_rejected() {
    assert_eq!(classify_request(&req(&[])), Disposition::Skip);
    assert_eq!(classify_request(&req(&["ECHO"])), Disposition::Reject);
    assert_eq!(classify_request(&req(&["SET", "k", "v"])), Disposition::Route);
    let incoherent = Request { parameter_count: 2, parameters: vec!["PING".to_string()] };
    assert_eq!(classify_request(&incoherent), Disposition::Reject);
}
