use minikv::handlers::handle_echo;
use minikv::num::{i32_to_string, parse_u64, u64_to_string};
use minikv::request::{check_int_line, parse_count_line, request_from_lines};
use minikv::text::{to_lowercase_ascii, trim_line};
use minikv::utils::{hex_to_string, make_request};
use minikv::{make_response, ProtocolError, Request, ResponseEnum, ResponseType};

fn req(args: &[&str]) -> Request {
    Request {
        parameter_count: args.len() as i32,
        parameters: args.iter().map(|s| s.to_string()).collect(),
    }
}

#[test]
fn response_encodings_are_exact() {
    assert_eq!(make_response(&"OK".to_string(), ResponseType::SimpleString), "+OK\r\n");
    assert_eq!(make_response(&"bar".to_string(), ResponseType::BulkString), "$3\r\nbar\r\n");
    assert_eq!(make_response(&"ignored".to_string(), ResponseType::NullBulkString), "$-1\r\n");
    assert_eq!(make_response(&"".to_string(), ResponseType::BulkString), "$0\r\n\r\n");
}

#[test]
fn response_markers() {
    assert_eq!(ResponseType::SimpleString.as_str(), "+");
    assert_eq!(ResponseType::BulkString.as_str(), "$");
    assert_eq!(ResponseType::NullBulkString.as_str(), "$");
}

#[test]
fn canned_responses() {
    assert_eq!(ResponseEnum::OK.as_string(), "+OK\r\n");
    assert_eq!(ResponseEnum::PONG.as_string(), "+PONG\r\n");
}

#[test]
fn echo_replies_with_bulk_argument() {
    assert_eq!(handle_echo(&req(&["ECHO", "hello"])), "$5\r\nhello\r\n");
}

#[test]
fn request_encoding_is_exact() {
    let r = make_request(&req(&["SET", "foo", "bar"]));
    assert_eq!(r, "*3\r\n$3\r\nSET\r\n$3\r\nfoo\r\n$3\r\nbar\r\n");
}

#[test]
fn count_line_parses_marker_and_integer() {
    assert_eq!(parse_count_line("*3\r\n"), Ok(3));
    assert_eq!(parse_count_line("*0\r\n"), Ok(0));
    assert_eq!(parse_count_line("*+7\r\n"), Ok(7));
}

#[test]
fn malformed_count_is_a_protocol_error() {
    assert_eq!(parse_count_line("*abc\r\n"), Err(ProtocolError));
    assert_eq!(parse_count_line("*-1\r\n"), Err(ProtocolError));
    assert_eq!(parse_count_line("\r\n"), Err(ProtocolError));
    assert_eq!(parse_count_line("*\r\n"), Err(ProtocolError));
    assert_eq!(parse_count_line("*2147483648\r\n"), Err(ProtocolError));
}

#[test]
fn length_lines_accept_any_integer() {
    assert!(check_int_line("$3\r\n"));
    assert!(check_int_line("$-5\r\n"));
    assert!(check_int_line("$+12\r\n"));
    assert!(!check_int_line("$\r\n"));
    assert!(!check_int_line("$x\r\n"));
    assert!(!check_int_line(""));
}

#[test]
fn request_from_lines_rebuilds_arguments() {
    let lines: Vec<String> = vec![
        "$3\r\n".to_string(),
        "SET\r\n".to_string(),
        "$3\r\n".to_string(),
        "foo\r\n".to_string(),
        "$3\r\n".to_string(),
        "bar\r\n".to_string(),
    ];
    let r = request_from_lines(3, &lines).unwrap();
    assert_eq!(r.parameter_count, 3);
    assert_eq!(r.parameters, vec!["SET", "foo", "bar"]);
}

#[test]
fn request_from_lines_checks_length_lines_and_shape() {
    let bad_length: Vec<String> = vec!["$x\r\n".to_string(), "SET\r\n".to_string()];
    assert!(request_from_lines(1, &bad_length).is_err());
    let short: Vec<String> = vec!["$3\r\n".to_string()];
    assert!(request_from_lines(1, &short).is_err());
}

#[test]
fn trim_strips_line_edges_only() {
    assert_eq!(trim_line(" a b \r\n"), "a b");
    assert_eq!(trim_line("\r\n"), "");
    assert_eq!(trim_line("plain"), "plain");
}

#[test]
fn lowercase_is_ascii_only() {
    assert_eq!(to_lowercase_ascii("SeT"), "set");
    assert_eq!(to_lowercase_ascii("PSYNC"), "psync");
    assert_eq!(to_lowercase_ascii("a-9Z"), "a-9z");
}

#[test]
fn numerals_render_and_parse() {
    assert_eq!(u64_to_string(0), "0");
    assert_eq!(u64_to_string(1234), "1234");
    assert_eq!(u64_to_string(u64::MAX), "18446744073709551615");
    assert_eq!(i32_to_string(-5), "-5");
    assert_eq!(i32_to_string(0), "0");
    assert_eq!(parse_u64("1234"), Some(1234));
    assert_eq!(parse_u64(""), None);
    assert_eq!(parse_u64("12a"), None);
    assert_eq!(parse_u64("18446744073709551615"), Some(u64::MAX));
    assert_eq!(parse_u64("18446744073709551616"), None);
}

#[test]
fn hex_dump_renders_printable_bytes() {
    assert_eq!(hex_to_string("48656c6c6f"), "Hello");
    assert_eq!(hex_to_string("00"), ".");
    assert_eq!(hex_to_string("zz41"), ".A");
    assert_eq!(hex_to_string("480"), "H");
    assert_eq!(hex_to_string(""), "");
}

#[test]
fn two_digit_lengths_are_rendered() {
    assert_eq!(
        make_response(&"helloworld!".to_string(), ResponseType::BulkString),
        "$11\r\nhelloworld!\r\n"
    );
    let r = make_request(&req(&["ECHO", "a-rather-long-word"]));
    assert_eq!(r, "*2\r\n$4\r\nECHO\r\n$18\r\na-rather-long-word\r\n");
}

#[test]
fn length_headers_count_bytes_not_characters() {
    let accented: String = char::from_u32(0xE9).unwrap().to_string();
    assert_eq!(accented.len(), 2);
    assert_eq!(
        make_response(&accented, ResponseType::BulkString),
        format!("$2\r\n{}\r\n", accented)
    );
    let r = make_request(&req(&["ECHO", &accented]));
    assert_eq!(r, format!("*2\r\n$4\r\nECHO\r\n$2\r\n{}\r\n", accented));
}
