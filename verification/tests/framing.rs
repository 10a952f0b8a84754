use redis_server::redis::handle_input::{bulk_element, element_kind, read_header, Element, Header};
use redis_server::redis::replica::{rdb_length, replconf_listening_port};
use redis_server::redis::text::{lower_is, parse_i64, parse_u16, parse_usize, trim};
use redis_server::redis::{get_redis_type, RedisType};
use redis_server::server::replica_of;

fn header_reply(line: &str) -> Vec<u8> {
    match read_header(line) {
        Header::Reject(r) => r,
        _ => panic!("expected a refusal"),
    }
}

#[test]
fn redis_type_by_first_character() {
    assert_eq!(get_redis_type("+OK"), Some(RedisType::SimpleString));
    assert_eq!(get_redis_type("-ERR"), Some(RedisType::SimpleError));
    assert_eq!(get_redis_type(":1"), Some(RedisType::Integer));
    assert_eq!(get_redis_type("$3"), Some(RedisType::BulkString));
    assert_eq!(get_redis_type("*2"), Some(RedisType::Array));
    assert_eq!(get_redis_type("_"), Some(RedisType::Null));
    assert_eq!(get_redis_type("#t"), Some(RedisType::Boolean));
    assert_eq!(get_redis_type(",1.5"), Some(RedisType::Double));
    assert_eq!(get_redis_type("(12"), Some(RedisType::BigNumber));
    assert_eq!(get_redis_type("!5"), Some(RedisType::BulkError));
    assert_eq!(get_redis_type("=5"), Some(RedisType::VerbatimString));
    assert_eq!(get_redis_type("%1"), Some(RedisType::RespMap));
    assert_eq!(get_redis_type("~1"), Some(RedisType::RespSet));
    assert_eq!(get_redis_type(">1"), Some(RedisType::Push));
    assert_eq!(get_redis_type(""), None);
    assert_eq!(get_redis_type(" *"), None);
    assert_eq!(get_redis_type("é"), None);
}

#[test]
fn array_headers() {
    assert!(matches!(read_header("*2\r\n"), Header::Array(2)));
    assert!(matches!(read_header("  * 3 \r\n"), Header::Array(3)));
    assert!(matches!(read_header("*+0\r\n"), Header::Array(0)));
    assert!(matches!(read_header("\r\n"), Header::Blank));
    assert!(matches!(read_header("\u{3000}\t"), Header::Blank));
    match read_header("hello\r\n") {
        Header::Unknown(r) => assert_eq!(r, b"-Error Unknown Input\r\n".to_vec()),
        _ => panic!("expected an unknown type"),
    }
    assert_eq!(header_reply("+OK\r\n"), b"-ERR Unexpected input type\r\n".to_vec());
    assert_eq!(header_reply("*x\r\n"), b"-ERR invalid input length\r\n".to_vec());
    assert_eq!(header_reply("*-1\r\n"), b"-ERR invalid input length\r\n".to_vec());
}

#[test]
fn element_headers() {
    assert!(matches!(element_kind("$3"), Element::Bulk(Some(3))));
    assert!(matches!(element_kind("$ 12 "), Element::Bulk(Some(12))));
    assert!(matches!(element_kind("$x"), Element::Bulk(None)));
    match element_kind("") {
        Element::Invalid(r) => assert_eq!(r, b"-ERR invalid input type\r\n".to_vec()),
        _ => panic!("expected an invalid element"),
    }
    assert!(matches!(element_kind("*3"), Element::Invalid(_)));
}

#[test]
fn bulk_elements() {
    assert_eq!(bulk_element(Some(3), "abc\r\n"), Ok("abc".to_string()));
    assert_eq!(bulk_element(Some(2), "é\r\n"), Ok("é".to_string()));
    assert_eq!(
        bulk_element(Some(1), "é\r\n"),
        Err(b"-ERR invalid input - incorrect length\r\n".to_vec())
    );
    assert_eq!(bulk_element(None, "abc"), Err(b"-ERR invalid input - no length\r\n".to_vec()));
}

#[test]
fn numbers_as_str_parse_reads_them() {
    assert_eq!(parse_usize("42"), Some(42));
    assert_eq!(parse_usize("+7"), Some(7));
    assert_eq!(parse_usize("007"), Some(7));
    assert_eq!(parse_usize("-0"), None);
    assert_eq!(parse_usize(""), None);
    assert_eq!(parse_usize("+"), None);
    assert_eq!(parse_usize("1 2"), None);
    assert_eq!(parse_usize("18446744073709551615"), Some(usize::MAX));
    assert_eq!(parse_usize("18446744073709551616"), None);
    assert_eq!(parse_i64("-9223372036854775808"), Some(i64::MIN));
    assert_eq!(parse_i64("9223372036854775807"), Some(i64::MAX));
    assert_eq!(parse_i64("9223372036854775808"), None);
    assert_eq!(parse_i64("-"), None);
    assert_eq!(parse_i64("+-3"), None);
    assert_eq!(parse_i64("-12"), Some(-12));
    assert_eq!(parse_u16("65535"), Some(65535));
    assert_eq!(parse_u16("65536"), None);
    for s in ["0", "+1", "-1", "99999999999999999999", "a", " 1"] {
        assert_eq!(parse_i64(s), s.parse::<i64>().ok());
        assert_eq!(parse_usize(s), s.parse::<usize>().ok());
    }
}

#[test]
fn trimming_and_case() {
    assert_eq!(trim("  \u{3000}a b\t\r\n"), "a b");
    assert_eq!(trim("\u{85}x\u{2029}"), "x");
    assert_eq!(trim(""), "");
    assert!(lower_is("NX", "nx"));
    assert!(lower_is("Replication", "replication"));
    assert!(!lower_is("nxx", "nx"));
    assert!(!lower_is("ÑX", "nx"));
}

#[test]
fn handshake_messages() {
    assert_eq!(
        replconf_listening_port(6380),
        b"*3\r\n$8\r\nREPLCONF\r\n$14\r\nlistening-port\r\n$4\r\n6380\r\n".to_vec()
    );
    assert_eq!(
        replconf_listening_port(0),
        b"*3\r\n$8\r\nREPLCONF\r\n$14\r\nlistening-port\r\n$1\r\n0\r\n".to_vec()
    );
}

#[test]
fn database_length_line() {
    assert_eq!(rdb_length("$88\r\n"), Some(88));
    assert_eq!(rdb_length("$$12$7"), Some(12));
    assert_eq!(rdb_length("5"), Some(5));
    assert_eq!(rdb_length("$$$"), None);
    assert_eq!(rdb_length(""), None);
    assert_eq!(rdb_length("$abc\r\n"), None);
}

#[test]
fn replica_from_arguments() {
    let r = replica_of(&vec!["localhost".to_string(), "6379".to_string()]).unwrap();
    assert_eq!(r.host, "localhost");
    assert_eq!(r.port, 6379);
    assert!(replica_of(&vec!["h".to_string(), "port".to_string()]).is_none());
    assert!(replica_of(&vec!["h".to_string()]).is_none());
}
