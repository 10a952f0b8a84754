use redis_server::redis::clock::{Timestamp, MAX_SECS, MIN_SECS};
use redis_server::redis::decoder::{
    decode, decode_at, CommandType, DecodeError, DecodeOutcome, InfoSelection, SetCommand,
    SetFlag, Ttl,
};
use redis_server::redis::handle_input::{parse_inputs, parse_inputs_at};
use redis_server::redis::set_parse::set_parse;
use redis_server::redis::store::Store;
use redis_server::redis::Data;

fn words(ws: &[&str]) -> Vec<String> {
    ws.iter().map(|w| w.to_string()).collect()
}

fn now_nanos() -> i128 {
    let t = chrono::Utc::now();
    t.timestamp() as i128 * 1_000_000_000 + t.timestamp_subsec_nanos() as i128
}

fn nanos(t: Timestamp) -> i128 {
    t.secs as i128 * 1_000_000_000 + t.nanos as i128
}

/// The point in time `m` milliseconds after the epoch.
fn ms(m: i64) -> Timestamp {
    Timestamp { secs: m.div_euclid(1000), nanos: (m.rem_euclid(1000) * 1_000_000) as u32 }
}

const MIN_TIME: Timestamp = Timestamp { secs: MIN_SECS, nanos: 0 };
const MAX_TIME: Timestamp = Timestamp { secs: MAX_SECS, nanos: 999_999_999 };

fn decoded_set(out: DecodeOutcome) -> SetCommand {
    match out {
        DecodeOutcome::Decoded(Ok(CommandType::SetCommand(s))) => s,
        _ => panic!("expected a SET command"),
    }
}

fn decoded_err(out: DecodeOutcome) -> DecodeError {
    match out {
        DecodeOutcome::Decoded(Err(e)) => e,
        _ => panic!("expected a decoding error"),
    }
}

fn bulk(s: &str) -> Vec<u8> {
    format!("${}\r\n{}\r\n", s.len(), s).into_bytes()
}

fn respond(store: &mut Store, ws: &[&str], now: i64) -> Option<Vec<u8>> {
    parse_inputs_at(words(ws), store, ms(now), false)
}

#[test]
fn decode_get_takes_exactly_one_key() {
    match decode_at(&words(&["get", "k"]), ms(0)) {
        DecodeOutcome::Decoded(Ok(CommandType::Get(g))) => assert_eq!(g.key, "k"),
        _ => panic!("expected GET"),
    }
    assert_eq!(decoded_err(decode_at(&words(&["get"]), ms(0))), DecodeError::InvalidCommand);
    assert_eq!(decoded_err(decode_at(&words(&["get", "a", "b"]), ms(0))), DecodeError::InvalidCommand);
}

#[test]
fn decode_command_word_is_case_sensitive() {
    assert_eq!(decoded_err(decode_at(&words(&["GET", "k"]), ms(0))), DecodeError::Unimplimented);
    assert_eq!(decoded_err(decode_at(&words(&["del", "k"]), ms(0))), DecodeError::Unimplimented);
}

#[test]
fn decode_set_needs_key_and_value() {
    assert_eq!(decoded_err(decode_at(&words(&["set", "k"]), ms(0))), DecodeError::InvalidOption);
    let s = decoded_set(decode_at(&words(&["set", "k", "v"]), ms(0)));
    assert_eq!(s.key, "k");
    assert_eq!(s.value, "v");
    assert_eq!(s.ttl, None);
    assert_eq!(s.flag, None);
    assert!(!s.get);
}

#[test]
fn decode_set_flags_ignore_case() {
    let s = decoded_set(decode_at(&words(&["set", "k", "v", "NX"]), ms(0)));
    assert_eq!(s.flag, Some(SetFlag::Nx));
    let s = decoded_set(decode_at(&words(&["set", "k", "v", "xX", "GeT"]), ms(0)));
    assert_eq!(s.flag, Some(SetFlag::Xx));
    assert!(s.get);
}

#[test]
fn decode_set_refuses_conflicting_options() {
    for ws in [
        &["set", "k", "v", "nx", "xx"][..],
        &["set", "k", "v", "get", "nx"][..],
        &["set", "k", "v", "ex", "1", "nx"][..],
        &["set", "k", "v", "px", "1", "get"][..],
        &["set", "k", "v", "bogus"][..],
    ] {
        assert_eq!(decoded_err(decode_at(&words(ws), ms(0))), DecodeError::InvalidOption);
    }
}

#[test]
fn decode_set_relative_expiry() {
    let s = decoded_set(decode_at(&words(&["set", "k", "v", "ex", "10"]), ms(1_000)));
    assert_eq!(s.ttl, Some(Ttl::Ex(ms(11_000))));
    let s = decoded_set(decode_at(&words(&["set", "k", "v", "PX", "250"]), ms(1_000)));
    assert_eq!(s.ttl, Some(Ttl::Px(ms(1_250))));
    let s = decoded_set(decode_at(&words(&["set", "k", "v", "ex", "-3"]), ms(1_000)));
    assert_eq!(s.ttl, Some(Ttl::Ex(ms(-2_000))));
    // A later expiry option replaces an earlier one.
    let s = decoded_set(decode_at(&words(&["set", "k", "v", "ex", "1", "px", "5"]), ms(0)));
    assert_eq!(s.ttl, Some(Ttl::Px(ms(5))));
}

#[test]
fn decode_set_span_out_of_range_counts_as_zero() {
    // `TimeDelta::try_seconds` refuses more than i64::MAX / 1000 seconds;
    // the span is then zero.
    let s = decoded_set(decode_at(&words(&["set", "k", "v", "ex", "9223372036854776"]), ms(7)));
    assert_eq!(s.ttl, Some(Ttl::Ex(ms(7))));
    // Just inside that bound the span is taken, and lands out of range.
    assert!(matches!(
        decode_at(&words(&["set", "k", "v", "ex", "9223372036854775"]), ms(0)),
        DecodeOutcome::ClockOutOfRange
    ));
    let s = decoded_set(decode_at(&words(&["set", "k", "v", "ex", "-9223372036854776"]), ms(7)));
    assert_eq!(s.ttl, Some(Ttl::Ex(ms(7))));
    assert!(matches!(
        decode_at(&words(&["set", "k", "v", "ex", "-9223372036854775"]), ms(0)),
        DecodeOutcome::ClockOutOfRange
    ));
    // `TimeDelta::try_milliseconds` refuses i64::MIN.
    let s =
        decoded_set(decode_at(&words(&["set", "k", "v", "px", "-9223372036854775808"]), ms(42)));
    assert_eq!(s.ttl, Some(Ttl::Px(ms(42))));
}

#[test]
fn decode_set_relative_expiry_beyond_clock_range() {
    assert!(matches!(
        decode_at(&words(&["set", "k", "v", "px", "1"]), MAX_TIME),
        DecodeOutcome::ClockOutOfRange
    ));
    let s = decoded_set(decode_at(&words(&["set", "k", "v", "px", "0"]), MAX_TIME));
    assert_eq!(s.ttl, Some(Ttl::Px(MAX_TIME)));
    assert!(matches!(
        decode_at(&words(&["set", "k", "v", "px", "-1"]), MIN_TIME),
        DecodeOutcome::ClockOutOfRange
    ));
}

#[test]
fn decode_set_absolute_expiry() {
    let s = decoded_set(decode_at(&words(&["set", "k", "v", "exat", "5"]), ms(0)));
    assert_eq!(s.ttl, Some(Ttl::Exat(ms(5_000))));
    let s = decoded_set(decode_at(&words(&["set", "k", "v", "pxat", "123"]), ms(0)));
    assert_eq!(s.ttl, Some(Ttl::Pxat(ms(123))));
    let max = (MAX_SECS * 1000 + 999).to_string();
    let min = (MIN_SECS * 1000).to_string();
    let s = decoded_set(decode_at(&words(&["set", "k", "v", "pxat", &max]), ms(0)));
    assert_eq!(s.ttl, Some(Ttl::Pxat(Timestamp { secs: MAX_SECS, nanos: 999_000_000 })));
    let s = decoded_set(decode_at(&words(&["set", "k", "v", "pxat", &min]), ms(0)));
    assert_eq!(s.ttl, Some(Ttl::Pxat(MIN_TIME)));
}

#[test]
fn decode_set_malformed_options() {
    let above = (MAX_SECS * 1000 + 1000).to_string();
    let below = (MIN_SECS * 1000 - 1).to_string();
    for ws in [
        vec!["set", "k", "v", "ex"],
        vec!["set", "k", "v", "px", "ten"],
        vec!["set", "k", "v", "exat", "9223372036854775807"],
        vec!["set", "k", "v", "pxat", &above],
        vec!["set", "k", "v", "pxat", &below],
        vec!["set", "k", "v", "ex", "9223372036854775808"],
    ] {
        assert!(matches!(decode_at(&words(&ws), ms(0)), DecodeOutcome::Malformed));
    }
}

#[test]
fn decode_keepttl_sets_no_expiry() {
    let s = decoded_set(decode_at(&words(&["set", "k", "v", "KEEPTTL"]), ms(0)));
    assert_eq!(s.ttl, None);
}

#[test]
fn decode_echo_info_ping() {
    match decode_at(&words(&["echo", "hi", "there"]), ms(0)) {
        DecodeOutcome::Decoded(Ok(CommandType::Echo(e))) => assert_eq!(e, "hi"),
        _ => panic!("expected ECHO"),
    }
    match decode_at(&words(&["echo"]), ms(0)) {
        DecodeOutcome::Decoded(Ok(CommandType::Echo(e))) => assert_eq!(e, ""),
        _ => panic!("expected ECHO"),
    }
    match decode_at(&words(&["info"]), ms(0)) {
        DecodeOutcome::Decoded(Ok(CommandType::Info(i))) => assert!(i.section.is_none()),
        _ => panic!("expected INFO"),
    }
    match decode_at(&words(&["info", "REPLICATION", "cpu"]), ms(0)) {
        DecodeOutcome::Decoded(Ok(CommandType::Info(i))) => assert_eq!(
            i.section,
            Some(vec![
                InfoSelection::Unimplimented,
                InfoSelection::Replication,
                InfoSelection::Unimplimented
            ])
        ),
        _ => panic!("expected INFO"),
    }
    assert!(matches!(
        decode_at(&words(&["ping", "x"]), ms(0)),
        DecodeOutcome::Decoded(Ok(CommandType::Ping))
    ));
}

#[test]
fn decode_reads_the_clock() {
    let before = now_nanos();
    let r = decode(words(&["set", "k", "v", "ex", "10"]));
    let after = now_nanos();
    match r {
        Ok(CommandType::SetCommand(s)) => match s.ttl {
            Some(Ttl::Ex(t)) => {
                let t = nanos(t) - 10_000_000_000;
                assert!(before <= t && t <= after)
            }
            _ => panic!("expected EX"),
        },
        _ => panic!("expected SET"),
    }
    assert!(matches!(decode(words(&["nope"])), Err(DecodeError::Unimplimented)));
}

#[test]
fn decode_error_message() {
    assert_eq!(DecodeError::InvalidOption.message(), "Invalid input for decode");
    assert_eq!(DecodeError::SubUnimplimented.message(), "Invalid input for decode");
}

#[test]
fn get_after_set_returns_value() {
    let mut store = Store::new();
    assert_eq!(respond(&mut store, &["set", "k", "héllo"], 5), Some(b"+OK\r\n".to_vec()));
    assert_eq!(respond(&mut store, &["get", "k"], 6), Some(bulk("héllo")));
    assert_eq!(respond(&mut store, &["get", "other"], 6), Some(b"$-1\r\n".to_vec()));
}

#[test]
fn set_nx_and_xx() {
    let mut store = Store::new();
    assert_eq!(respond(&mut store, &["set", "k", "v", "xx"], 0), Some(vec![]));
    assert_eq!(respond(&mut store, &["get", "k"], 0), Some(b"$-1\r\n".to_vec()));
    assert_eq!(respond(&mut store, &["set", "k", "v", "nx"], 0), Some(b"+OK\r\n".to_vec()));
    assert_eq!(respond(&mut store, &["set", "k", "w", "nx"], 0), Some(vec![]));
    assert_eq!(respond(&mut store, &["get", "k"], 0), Some(bulk("v")));
    assert_eq!(respond(&mut store, &["set", "k", "w", "xx"], 0), Some(b"+OK\r\n".to_vec()));
    assert_eq!(respond(&mut store, &["get", "k"], 0), Some(bulk("w")));
}

#[test]
fn set_get_returns_previous_value() {
    let mut store = Store::new();
    assert_eq!(respond(&mut store, &["set", "k", "v", "get"], 0), Some(b"$-1\r\n".to_vec()));
    assert_eq!(respond(&mut store, &["get", "k"], 0), Some(b"$-1\r\n".to_vec()));
    respond(&mut store, &["set", "k", "old"], 0);
    assert_eq!(respond(&mut store, &["set", "k", "new", "get"], 0), Some(bulk("old")));
    assert_eq!(respond(&mut store, &["get", "k"], 0), Some(bulk("new")));
}

#[test]
fn expired_value_is_gone() {
    let mut store = Store::new();
    respond(&mut store, &["set", "k", "v", "px", "100"], 1_000);
    assert_eq!(store.get("k").unwrap().expires_at, Some(ms(1_100)));
    assert_eq!(respond(&mut store, &["get", "k"], 1_099), Some(bulk("v")));
    assert!(store.get("k").is_some());
    assert_eq!(respond(&mut store, &["get", "k"], 1_100), Some(b"$-1\r\n".to_vec()));
    assert!(store.get("k").is_none());
}

#[test]
fn keepttl_keeps_nothing() {
    let mut store = Store::new();
    respond(&mut store, &["set", "k", "v", "px", "100"], 1_000);
    respond(&mut store, &["set", "k", "w", "keepttl"], 1_000);
    assert_eq!(store.get("k").unwrap().expires_at, None);
}

#[test]
fn ping_echo_replies() {
    let mut store = Store::new();
    assert_eq!(respond(&mut store, &["ping"], 0), Some(b"+PONG\r\n".to_vec()));
    assert_eq!(respond(&mut store, &["echo", "hey"], 0), Some(b"$3\r\nhey\r\n".to_vec()));
    assert_eq!(respond(&mut store, &["echo"], 0), Some(b"$-1\r\n".to_vec()));
    assert_eq!(respond(&mut store, &["echo", ""], 0), Some(b"$-1\r\n".to_vec()));
}

#[test]
fn error_replies() {
    let mut store = Store::new();
    assert_eq!(respond(&mut store, &[], 0), Some(b"-ERR invalid commands\r\n".to_vec()));
    assert_eq!(
        respond(&mut store, &["set", "k"], 0),
        Some(b"-ERR Invalid input for decode".to_vec())
    );
    assert_eq!(
        respond(&mut store, &["flush"], 0),
        Some(b"-ERR Invalid input for decode".to_vec())
    );
}

#[test]
fn aborting_requests() {
    let mut store = Store::new();
    assert_eq!(respond(&mut store, &["info"], 0), None);
    assert_eq!(respond(&mut store, &["set", "k", "v", "ex"], 0), None);
    assert_eq!(
        parse_inputs_at(words(&["set", "k", "v", "px", "1"]), &mut store, MAX_TIME, false),
        None
    );
    assert!(store.get("k").is_none());
}

#[test]
fn info_replication_reply() {
    let text = "# Replication\nrole:master\nconnected_slaves:0\nmaster_replid:8371b4fb1155b71f4a04d3e1bc3e18c4a990aeeb\nmaster_repl_offset:0\nsecond_repl_offset:-1";
    let mut store = Store::new();
    assert_eq!(respond(&mut store, &["info", "replication"], 0), Some(bulk(text)));
    assert_eq!(respond(&mut store, &["info", "cpu"], 0), Some(b"$0\r\n\r\n".to_vec()));
    let twice = format!("{}\r\n{}", text, text);
    assert_eq!(
        respond(&mut store, &["info", "replication", "replication"], 0),
        Some(bulk(&twice))
    );
    let replica = text.replace("role:master", "role:slave");
    assert_eq!(
        parse_inputs_at(words(&["info", "replication"]), &mut store, ms(0), true),
        Some(bulk(&replica))
    );
}

#[test]
fn parse_inputs_reads_the_clock() {
    let mut store = Store::new();
    assert_eq!(
        parse_inputs(words(&["set", "k", "v", "px", "100000"]), &mut store, false),
        Some(b"+OK\r\n".to_vec())
    );
    assert_eq!(parse_inputs(words(&["get", "k"]), &mut store, false), Some(bulk("v")));
    parse_inputs(words(&["set", "k", "v", "px", "-1"]), &mut store, false);
    assert_eq!(parse_inputs(words(&["get", "k"]), &mut store, false), Some(b"$-1\r\n".to_vec()));
}

#[test]
fn set_parse_applies_to_store() {
    let mut store = Store::new();
    let set = SetCommand {
        key: "a".to_string(),
        value: "1".to_string(),
        ttl: Some(Ttl::Exat(ms(9_000))),
        flag: None,
        get: false,
    };
    assert_eq!(set_parse(set, &mut store), b"+OK\r\n".to_vec());
    assert_eq!(store.get("a").unwrap().expires_at, Some(ms(9_000)));
    let keep = SetCommand {
        key: "a".to_string(),
        value: "2".to_string(),
        ttl: Some(Ttl::Keepttl),
        flag: Some(SetFlag::Xx),
        get: true,
    };
    assert_eq!(set_parse(keep, &mut store), bulk("1"));
    let d = store.get("a").unwrap();
    assert_eq!(d.value, "2");
    assert_eq!(d.expires_at, Some(ms(9_000)));
}

#[test]
fn store_insert_get_remove() {
    let mut store = Store::new();
    assert!(store.get("x").is_none());
    store.insert("x".to_string(), Data::new("1".to_string(), None));
    store.insert("y".to_string(), Data::new("2".to_string(), Some(ms(5))));
    store.insert("x".to_string(), Data::new("3".to_string(), None));
    assert_eq!(store.get("x").unwrap().value, "3");
    assert_eq!(store.get("y").unwrap().expires_at, Some(ms(5)));
    store.remove("x");
    assert!(store.get("x").is_none());
    assert_eq!(store.get("y").unwrap().value, "2");
    store.remove("nothing");
    assert_eq!(store.get("y").unwrap().value, "2");
}

#[test]
fn data_default_expires_now() {
    let before = now_nanos();
    let d = Data::default();
    let after = now_nanos();
    assert_eq!(d.value, "");
    let t = nanos(d.expires_at.unwrap());
    assert!(before <= t && t <= after);
}

#[test]
fn only_set_and_get_write() {
    let mut store = Store::new();
    respond(&mut store, &["set", "k", "v"], 0);
    for ws in [
        &["ping"][..],
        &["echo", "k"][..],
        &["info", "replication"][..],
        &["del", "k"][..],
        &["set", "k"][..],
        &[][..],
    ] {
        respond(&mut store, ws, 0);
        assert_eq!(store.get("k").unwrap().value, "v");
        assert_eq!(store.get("k").unwrap().expires_at, None);
    }
}

#[test]
fn expiry_keeps_nanoseconds() {
    let mut store = Store::new();
    let set_at = Timestamp { secs: 1, nanos: 500 };
    assert_eq!(
        parse_inputs_at(words(&["set", "k", "v", "px", "100"]), &mut store, set_at, false),
        Some(b"+OK\r\n".to_vec())
    );
    let expiry = Timestamp { secs: 1, nanos: 100_000_500 };
    assert_eq!(store.get("k").unwrap().expires_at, Some(expiry));
    let just_before = Timestamp { secs: 1, nanos: 100_000_499 };
    assert_eq!(parse_inputs_at(words(&["get", "k"]), &mut store, just_before, false), Some(bulk("v")));
    assert_eq!(
        parse_inputs_at(words(&["get", "k"]), &mut store, expiry, false),
        Some(b"$-1\r\n".to_vec())
    );
    assert!(store.get("k").is_none());
}

#[test]
fn expiry_across_negative_seconds() {
    let mut store = Store::new();
    respond(&mut store, &["set", "k", "v", "pxat", "-1500"], 0);
    assert_eq!(store.get("k").unwrap().expires_at, Some(Timestamp { secs: -2, nanos: 500_000_000 }));
    let before = Timestamp { secs: -2, nanos: 499_999_999 };
    assert_eq!(parse_inputs_at(words(&["get", "k"]), &mut store, before, false), Some(bulk("v")));
    assert_eq!(respond(&mut store, &["get", "k"], -1_000), Some(b"$-1\r\n".to_vec()));
}
