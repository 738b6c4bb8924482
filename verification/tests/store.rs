use minikv::handlers::{handle_get, handle_set};
use minikv::{ReplicationInfo, Request, SharedData};

fn req(args: &[&str]) -> Request {
    Request {
        parameter_count: args.len() as i32,
        parameters: args.iter().map(|s| s.to_string()).collect(),
    }
}

fn node(role: &str) -> SharedData {
    SharedData::new(ReplicationInfo {
        replica_info: String::new(),
        role: role.to_string(),
        master_replid: "8371b4fb1155b71f4a04d3e1bc3e18c4a990aeeb".to_string(),
        master_repl_offset: 0,
    })
}

#[test]
fn set_then_get_returns_value() {
    let mut sd = node("master");
    let r = handle_set(&req(&["SET", "foo", "bar"]), &mut sd, 1000);
    assert_eq!(r, "+OK\r\n");
    let g = handle_get(&req(&["GET", "foo"]), &mut sd, 1000);
    assert_eq!(g, "$3\r\nbar\r\n");
}

#[test]
fn get_without_ttl_is_stable() {
    let mut sd = node("master");
    handle_set(&req(&["SET", "k", "value"]), &mut sd, 5);
    let first = handle_get(&req(&["GET", "k"]), &mut sd, 10);
    let second = handle_get(&req(&["GET", "k"]), &mut sd, 1_000_000_000);
    assert_eq!(first, "$5\r\nvalue\r\n");
    assert_eq!(second, first);
}

#[test]
fn set_overwrites_whatever_was_there() {
    let mut sd = node("master");
    handle_set(&req(&["SET", "k", "old", "PX", "50"]), &mut sd, 0);
    handle_set(&req(&["SET", "k", "new"]), &mut sd, 10);
    let g = handle_get(&req(&["GET", "k"]), &mut sd, 1_000_000);
    assert_eq!(g, "$3\r\nnew\r\n");
}

#[test]
fn expired_key_is_null_and_removed() {
    let mut sd = node("master");
    handle_set(&req(&["SET", "k", "v", "PX", "100"]), &mut sd, 1000);
    let g = handle_get(&req(&["GET", "k"]), &mut sd, 1150);
    assert_eq!(g, "$-1\r\n");
    let again = handle_get(&req(&["GET", "k"]), &mut sd, 1150);
    assert_eq!(again, "$-1\r\n");
}

#[test]
fn key_survives_until_ttl_elapses() {
    let mut sd = node("master");
    handle_set(&req(&["SET", "k", "v", "PX", "100"]), &mut sd, 1000);
    let g = handle_get(&req(&["GET", "k"]), &mut sd, 1100);
    assert_eq!(g, "$1\r\nv\r\n");
}

#[test]
fn ttl_option_is_case_insensitive() {
    let mut sd = node("master");
    handle_set(&req(&["SET", "k", "v", "px", "100"]), &mut sd, 1000);
    let g = handle_get(&req(&["GET", "k"]), &mut sd, 1200);
    assert_eq!(g, "$-1\r\n");
}

#[test]
fn unparsable_ttl_degrades_to_zero() {
    let mut sd = node("master");
    handle_set(&req(&["SET", "k", "v", "PX", "soon"]), &mut sd, 1000);
    let at_once = handle_get(&req(&["GET", "k"]), &mut sd, 1000);
    assert_eq!(at_once, "$1\r\nv\r\n");
    let later = handle_get(&req(&["GET", "k"]), &mut sd, 1001);
    assert_eq!(later, "$-1\r\n");
}

#[test]
fn get_missing_key_returns_null_bulk() {
    let mut sd = node("master");
    let g = handle_get(&req(&["GET", "missing"]), &mut sd, 0);
    assert_eq!(g, "$-1\r\n");
}

#[test]
fn empty_value_reads_back_empty() {
    let mut sd = node("master");
    handle_set(&req(&["SET", "k", ""]), &mut sd, 0);
    let g = handle_get(&req(&["GET", "k"]), &mut sd, 0);
    assert_eq!(g, "$0\r\n\r\n");
}
