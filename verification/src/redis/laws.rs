//! What holds of the server across requests.

use vstd::prelude::*;
use vstd::utf8::encode_utf8;

use crate::redis::clock::{
    checked_add_spec, nanos_of, time_of_nanos, valid_time, Timestamp, MAX_SECS, MIN_SECS,
};
use crate::redis::text::{
    decimal,
    all_digits, digits_value, is_digit, is_whitespace, lowercase, parse_i64_spec, parse_unsigned,
    parse_usize_spec, trim_end, trim_start, trimmed,
};
use crate::redis::decoder::{
    decode_spec, scan_options, CommandSpec, DecodeSpec, ScanSpec, SetFlag, SetOptions, SetSpec,
    Ttl,
};
use crate::redis::handle_input::{header_spec, parse_inputs_spec, HeaderSpec};
use crate::redis::set_parse::set_spec;
use crate::redis::replica::replconf_port_message;
use crate::redis::reply::{bulk_bytes, bulk_reply, null_reply, ok_reply};
use crate::redis::DataView;

verus! {

/// The words that name commands and options, letter by letter.
proof fn lemma_words()
    ensures
        "get"@ == seq!['g', 'e', 't'],
        "set"@ == seq!['s', 'e', 't'],
        "echo"@ == seq!['e', 'c', 'h', 'o'],
        "info"@ == seq!['i', 'n', 'f', 'o'],
        "ping"@ == seq!['p', 'i', 'n', 'g'],
        "nx"@ == seq!['n', 'x'],
        "xx"@ == seq!['x', 'x'],
        "ex"@ == seq!['e', 'x'],
        "px"@ == seq!['p', 'x'],
        lowercase("get"@) == "get"@,
        lowercase("px"@) == "px"@,
        lowercase("ex"@) == "ex"@,
        lowercase("nx"@) == "nx"@,
        lowercase("xx"@) == "xx"@,
{
    reveal_strlit("get");
    reveal_strlit("set");
    reveal_strlit("echo");
    reveal_strlit("info");
    reveal_strlit("ping");
    reveal_strlit("nx");
    reveal_strlit("xx");
    reveal_strlit("ex");
    reveal_strlit("px");
    assert("ex"@ =~= seq!['e', 'x']);
    assert("px"@ =~= seq!['p', 'x']);
    assert(lowercase("px"@) =~= "px"@);
    assert(lowercase("ex"@) =~= "ex"@);
    assert("get"@ =~= seq!['g', 'e', 't']);
    assert("set"@ =~= seq!['s', 'e', 't']);
    assert("echo"@ =~= seq!['e', 'c', 'h', 'o']);
    assert("info"@ =~= seq!['i', 'n', 'f', 'o']);
    assert("ping"@ =~= seq!['p', 'i', 'n', 'g']);
    assert("nx"@ =~= seq!['n', 'x']);
    assert("xx"@ =~= seq!['x', 'x']);
    assert(lowercase("get"@) =~= "get"@);
    assert(lowercase("nx"@) =~= "nx"@);
    assert(lowercase("xx"@) =~= "xx"@);
}

/// `SET key value`, without options, decodes as such, whatever the time.
proof fn lemma_decode_plain_set(key: Seq<char>, value: Seq<char>, now: Timestamp)
    ensures
        decode_spec(seq!["set"@, key, value], now) == DecodeSpec::Done(
            Ok(
                CommandSpec::SetCommand(
                    SetSpec { key, value, ttl: None, flag: None, get: false },
                ),
            ),
        ),
{
    lemma_words();
    let inp = seq!["set"@, key, value];
    assert(inp[0] == "set"@);
    assert("set"@ != "get"@) by {
        assert("set"@[0] != "get"@[0]);
    }
    assert(scan_options(inp, 3, SetOptions { ttl: None, flag: None, get: false }, now) == ScanSpec::Done(
        SetOptions { ttl: None, flag: None, get: false },
    ));
}

/// `SET key value <option>`, with one flag option, decodes as such.
proof fn lemma_decode_set_option(key: Seq<char>, value: Seq<char>, opt: Seq<char>, now: Timestamp)
    requires
        opt == "nx"@ || opt == "xx"@ || opt == "get"@,
    ensures
        decode_spec(seq!["set"@, key, value, opt], now) == DecodeSpec::Done(
            Ok(
                CommandSpec::SetCommand(
                    SetSpec {
                        key,
                        value,
                        ttl: None,
                        flag: if opt == "nx"@ {
                            Some(SetFlag::Nx)
                        } else if opt == "xx"@ {
                            Some(SetFlag::Xx)
                        } else {
                            None
                        },
                        get: opt == "get"@,
                    },
                ),
            ),
        ),
{
    lemma_words();
    let inp = seq!["set"@, key, value, opt];
    let init = SetOptions { ttl: None, flag: None, get: false };
    assert(inp[0] == "set"@);
    assert(inp[3] == opt);
    assert("set"@ != "get"@) by {
        assert("set"@[0] != "get"@[0]);
    }
    if opt == "nx"@ {
        let next = SetOptions { ttl: None, flag: Some(SetFlag::Nx), get: false };
        assert(scan_options(inp, 4, next, now) == ScanSpec::Done(next));
        assert(scan_options(inp, 3, init, now) == ScanSpec::Done(next));
    } else if opt == "xx"@ {
        assert("xx"@ != "nx"@) by {
            assert("xx"@[0] != "nx"@[0]);
        }
        let next = SetOptions { ttl: None, flag: Some(SetFlag::Xx), get: false };
        assert(scan_options(inp, 4, next, now) == ScanSpec::Done(next));
        assert(scan_options(inp, 3, init, now) == ScanSpec::Done(next));
    } else {
        assert("get"@ != "nx"@);
        assert("get"@ != "xx"@);
        let next = SetOptions { ttl: None, flag: None, get: true };
        assert(scan_options(inp, 4, next, now) == ScanSpec::Done(next));
        assert(scan_options(inp, 3, init, now) == ScanSpec::Done(next));
    }
}

/// `SET key value PX <ms>` decodes with an expiry `ms` milliseconds after
/// `now`, where that time can be held by `DateTime<Utc>`.
proof fn lemma_decode_set_px(key: Seq<char>, value: Seq<char>, ms: Seq<char>, now: Timestamp)
    requires
        valid_time(now),
        parse_i64_spec(ms) is Some,
        parse_i64_spec(ms).unwrap() > i64::MIN,
        checked_add_spec(now, parse_i64_spec(ms).unwrap() as int) is Some,
    ensures
        decode_spec(seq!["set"@, key, value, "px"@, ms], now) == DecodeSpec::Done(
            Ok(
                CommandSpec::SetCommand(
                    SetSpec {
                        key,
                        value,
                        ttl: Some(Ttl::Px(checked_add_spec(now, parse_i64_spec(ms).unwrap() as int).unwrap())),
                        flag: None,
                        get: false,
                    },
                ),
            ),
        ),
{
    lemma_words();
    let inp = seq!["set"@, key, value, "px"@, ms];
    let n = parse_i64_spec(ms).unwrap();
    let t = checked_add_spec(now, n as int).unwrap();
    assert(inp[0] == "set"@);
    assert(inp[3] == "px"@);
    assert(inp[4] == ms);
    assert("set"@ != "get"@) by {
        assert("set"@[0] != "get"@[0]);
    }
    assert("px"@ != "nx"@ && "px"@ != "xx"@ && "px"@ != "get"@ && "px"@ != "ex"@) by {
        assert("px"@[0] != "nx"@[0]);
        assert("px"@[0] != "xx"@[0]);
        assert("px"@.len() != "get"@.len());
        assert("px"@[0] != "ex"@[0]);
    }
    let done = SetOptions { ttl: Some(Ttl::Px(t)), flag: None, get: false };
    assert(scan_options(inp, 5, done, now) == ScanSpec::Done(done));
    assert(scan_options(inp, 3, SetOptions { ttl: None, flag: None, get: false }, now)
        == ScanSpec::Done(done));
}

/// `GET key` decodes as such, whatever the time.
proof fn lemma_decode_get(key: Seq<char>, now: Timestamp)
    ensures
        decode_spec(seq!["get"@, key], now) == DecodeSpec::Done(Ok(CommandSpec::Get(key))),
{
    lemma_words();
    assert(seq!["get"@, key][0] == "get"@);
}

/// After `SET key value`, which answers `OK`, `GET key` answers with
/// `value`, at any later time, and leaves the store as it is.
pub proof fn law_get_after_set(
    store: Map<Seq<char>, DataView>,
    key: Seq<char>,
    value: Seq<char>,
    now_set: Timestamp,
    now_get: Timestamp,
    is_replica: bool,
)
    requires
        valid_time(now_set),
        valid_time(now_get),
    ensures
        ({
            let set = parse_inputs_spec(store, seq!["set"@, key, value], now_set, is_replica);
            &&& set == Some((store.insert(key, (value, None)), ok_reply()))
            &&& parse_inputs_spec(
                store.insert(key, (value, None)),
                seq!["get"@, key],
                now_get,
                is_replica,
            ) == Some((store.insert(key, (value, None)), bulk_reply(value)))
        }),
{
    lemma_decode_plain_set(key, value, now_set);
    lemma_decode_get(key, now_get);
    let after = store.insert(key, (value, None));
    assert(after.contains_key(key) && after[key] == (value, None::<Timestamp>));
}

/// After `SET key value PX <ms>` at time `now_set`, which answers `OK`,
/// `GET key` answers null, and removes the key, from `ms` milliseconds
/// later on; before then it answers with `value`.
pub proof fn law_set_px_then_get(
    store: Map<Seq<char>, DataView>,
    key: Seq<char>,
    value: Seq<char>,
    ms: Seq<char>,
    now_set: Timestamp,
    now_get: Timestamp,
    is_replica: bool,
)
    requires
        valid_time(now_set),
        valid_time(now_get),
        parse_i64_spec(ms) is Some,
        parse_i64_spec(ms).unwrap() > i64::MIN,
        checked_add_spec(now_set, parse_i64_spec(ms).unwrap() as int) is Some,
    ensures
        ({
            let expiry = checked_add_spec(now_set, parse_i64_spec(ms).unwrap() as int).unwrap();
            let after = store.insert(key, (value, Some(expiry)));
            &&& parse_inputs_spec(store, seq!["set"@, key, value, "px"@, ms], now_set, is_replica)
                == Some((after, ok_reply()))
            &&& nanos_of(now_get) >= nanos_of(expiry) ==> parse_inputs_spec(after, seq!["get"@, key], now_get, is_replica)
                == Some((after.remove(key), null_reply()))
            &&& nanos_of(now_get) < nanos_of(expiry) ==> parse_inputs_spec(after, seq!["get"@, key], now_get, is_replica)
                == Some((after, bulk_reply(value)))
        }),
{
    lemma_decode_set_px(key, value, ms, now_set);
    lemma_decode_get(key, now_get);
    let expiry = checked_add_spec(now_set, parse_i64_spec(ms).unwrap() as int).unwrap();
    let after = store.insert(key, (value, Some(expiry)));
    assert(after.contains_key(key) && after[key] == (value, Some(expiry)));
}

/// `SET key value NX` on a key that is present changes nothing and sends
/// nothing.
pub proof fn law_set_nx_keeps_present_key(
    store: Map<Seq<char>, DataView>,
    key: Seq<char>,
    value: Seq<char>,
    now: Timestamp,
    is_replica: bool,
)
    requires
        valid_time(now),
        store.contains_key(key),
    ensures
        parse_inputs_spec(store, seq!["set"@, key, value, "nx"@], now, is_replica) == Some(
            (store, Seq::<u8>::empty()),
        ),
{
    lemma_words();
    lemma_decode_set_option(key, value, "nx"@, now);
}

/// `SET key value XX` on a key that is missing changes nothing and sends
/// nothing.
pub proof fn law_set_xx_skips_missing_key(
    store: Map<Seq<char>, DataView>,
    key: Seq<char>,
    value: Seq<char>,
    now: Timestamp,
    is_replica: bool,
)
    requires
        valid_time(now),
        !store.contains_key(key),
    ensures
        parse_inputs_spec(store, seq!["set"@, key, value, "xx"@], now, is_replica) == Some(
            (store, Seq::<u8>::empty()),
        ),
{
    lemma_words();
    assert("xx"@ != "nx"@) by {
        assert("xx"@[0] != "nx"@[0]);
    }
    lemma_decode_set_option(key, value, "xx"@, now);
}

/// `SET key value GET` on a present key stores the new value, without an
/// expiry, and answers with the previous one.
pub proof fn law_set_get_returns_previous(
    store: Map<Seq<char>, DataView>,
    key: Seq<char>,
    value: Seq<char>,
    now: Timestamp,
    is_replica: bool,
)
    requires
        valid_time(now),
        store.contains_key(key),
    ensures
        parse_inputs_spec(store, seq!["set"@, key, value, "get"@], now, is_replica) == Some(
            (store.insert(key, (value, None)), bulk_reply(store[key].0)),
        ),
{
    lemma_words();
    assert("get"@ != "nx"@);
    assert("get"@ != "xx"@);
    lemma_decode_set_option(key, value, "get"@, now);
}

/// `GET key` on a value whose expiry time is not after the current time
/// answers null and removes the key; before that time it answers with the
/// value and keeps it.
pub proof fn law_get_expiry(
    store: Map<Seq<char>, DataView>,
    key: Seq<char>,
    now: Timestamp,
    is_replica: bool,
)
    requires
        valid_time(now),
        store.contains_key(key),
        store[key].1 is Some,
    ensures
        nanos_of(store[key].1.unwrap()) <= nanos_of(now) ==> parse_inputs_spec(store, seq!["get"@, key], now, is_replica)
            == Some((store.remove(key), null_reply())),
        nanos_of(store[key].1.unwrap()) > nanos_of(now) ==> parse_inputs_spec(store, seq!["get"@, key], now, is_replica)
            == Some((store, bulk_reply(store[key].0))),
{
    lemma_decode_get(key, now);
}

/// `GET key` on a missing key answers null and changes nothing.
pub proof fn law_get_missing(
    store: Map<Seq<char>, DataView>,
    key: Seq<char>,
    now: Timestamp,
    is_replica: bool,
)
    requires
        valid_time(now),
        !store.contains_key(key),
    ensures
        parse_inputs_spec(store, seq!["get"@, key], now, is_replica) == Some((store, null_reply())),
{
    lemma_decode_get(key, now);
}

/// `PING` answers `PONG`, and `ECHO` answers with its argument (null when
/// it is empty); neither changes the store.
pub proof fn law_ping_echo(
    store: Map<Seq<char>, DataView>,
    text: Seq<char>,
    now: Timestamp,
    is_replica: bool,
)
    requires
        valid_time(now),
    ensures
        parse_inputs_spec(store, seq!["ping"@], now, is_replica) == Some(
            (store, encode_utf8("+PONG\r\n"@)),
        ),
        parse_inputs_spec(store, seq!["echo"@, text], now, is_replica) == Some(
            (
                store,
                if text.len() == 0 {
                    null_reply()
                } else {
                    bulk_reply(text)
                },
            ),
        ),
{
    lemma_words();
    let p = seq!["ping"@];
    let e = seq!["echo"@, text];
    assert(p[0] == "ping"@);
    assert(e[0] == "echo"@);
    assert("ping"@ != "get"@ && "ping"@ != "set"@ && "ping"@ != "echo"@ && "ping"@ != "info"@) by {
        assert("ping"@[0] != "get"@[0]);
        assert("ping"@[0] != "set"@[0]);
        assert("ping"@[0] != "echo"@[0]);
        assert("ping"@[0] != "info"@[0]);
    }
    assert("echo"@ != "get"@ && "echo"@ != "set"@) by {
        assert("echo"@[0] != "get"@[0]);
        assert("echo"@[0] != "set"@[0]);
    }
}

/// A request whose command is not `SET` or `GET` never changes the store.
pub proof fn law_only_set_get_write(
    store: Map<Seq<char>, DataView>,
    inputs: Seq<Seq<char>>,
    now: Timestamp,
    is_replica: bool,
)
    requires
        valid_time(now),
        inputs.len() > 0 ==> inputs[0] != "set"@ && inputs[0] != "get"@,
    ensures
        parse_inputs_spec(store, inputs, now, is_replica) matches Some((after, _)) ==> after
            == store,
{
}

/// A flag option (`NX` or `XX`) followed by a relative expiry (`EX` or
/// `PX` with a number `n`) decodes with both: the flag, and the expiry
/// `n` seconds (or milliseconds) after `now`, wherever `DateTime<Utc>` can
/// hold that time. The flag does not stop the expiry from being read.
pub proof fn law_flag_then_relative_expiry(
    key: Seq<char>,
    value: Seq<char>,
    flag_word: Seq<char>,
    unit_word: Seq<char>,
    amount: Seq<char>,
    now: Timestamp,
)
    requires
        valid_time(now),
        flag_word == "nx"@ || flag_word == "xx"@,
        unit_word == "ex"@ || unit_word == "px"@,
        parse_i64_spec(amount) is Some,
        time_of_nanos(
            nanos_of(now) + parse_i64_spec(amount).unwrap() * (if unit_word == "ex"@ {
                1_000_000_000int
            } else {
                1_000_000int
            }),
        ) is Some,
    ensures
        ({
            let n = parse_i64_spec(amount).unwrap();
            let scale = if unit_word == "ex"@ {
                1_000_000_000int
            } else {
                1_000_000int
            };
            let t = time_of_nanos(nanos_of(now) + n * scale).unwrap();
            decode_spec(seq!["set"@, key, value, flag_word, unit_word, amount], now)
                == DecodeSpec::Done(
                Ok(
                    CommandSpec::SetCommand(
                        SetSpec {
                            key,
                            value,
                            ttl: Some(
                                if unit_word == "ex"@ {
                                    Ttl::Ex(t)
                                } else {
                                    Ttl::Px(t)
                                },
                            ),
                            flag: Some(
                                if flag_word == "nx"@ {
                                    SetFlag::Nx
                                } else {
                                    SetFlag::Xx
                                },
                            ),
                            get: false,
                        },
                    ),
                ),
            )
        }),
{
    lemma_words();
    let inp = seq!["set"@, key, value, flag_word, unit_word, amount];
    let n = parse_i64_spec(amount).unwrap();
    let ex = unit_word == "ex"@;
    let scale = if ex {
        1_000_000_000int
    } else {
        1_000_000int
    };
    let t = time_of_nanos(nanos_of(now) + n * scale).unwrap();
    assert(inp[0] == "set"@);
    assert(inp[3] == flag_word);
    assert(inp[4] == unit_word);
    assert(inp[5] == amount);
    assert("set"@ != "get"@) by {
        assert("set"@[0] != "get"@[0]);
    }
    assert("xx"@ != "nx"@) by {
        assert("xx"@[0] != "nx"@[0]);
    }
    assert(unit_word != "nx"@ && unit_word != "xx"@ && unit_word != "get"@) by {
        assert("ex"@[1] != "nx"@[1] || "ex"@[0] != "nx"@[0]);
        assert("ex"@[0] != "xx"@[0]);
        assert("px"@[0] != "nx"@[0]);
        assert("px"@[0] != "xx"@[0]);
        assert("ex"@.len() != "get"@.len());
        assert("px"@.len() != "get"@.len());
    }
    assert("px"@ != "ex"@) by {
        assert("px"@[0] != "ex"@[0]);
    }
    let flag = if flag_word == "nx"@ {
        SetFlag::Nx
    } else {
        SetFlag::Xx
    };
    let flagged = SetOptions { ttl: None, flag: Some(flag), get: false };
    let done = SetOptions {
        ttl: Some(
            if ex {
                Ttl::Ex(t)
            } else {
                Ttl::Px(t)
            },
        ),
        flag: Some(flag),
        get: false,
    };
    // The time is in range, so the number is small enough for chrono's spans.
    assert(nanos_of(now) >= MIN_SECS * 1_000_000_000);
    assert(nanos_of(now) <= MAX_SECS * 1_000_000_000 + 999_999_999);
    if ex {
        assert(-9_223_372_036_854_775 <= n <= 9_223_372_036_854_775);
        assert(checked_add_spec(now, n * 1000) == Some(t));
    } else {
        assert(n > i64::MIN);
        assert(checked_add_spec(now, n as int) == Some(t));
    }
    assert(scan_options(inp, 6, done, now) == ScanSpec::Done(done));
    assert(scan_options(inp, 4, flagged, now) == ScanSpec::Done(done));
    assert(scan_options(inp, 3, SetOptions { ttl: None, flag: None, get: false }, now)
        == ScanSpec::Done(done));
}

/// `SET key value EX <n>` decodes with an expiry `n` seconds after `now`,
/// where `DateTime<Utc>` can hold that time.
proof fn lemma_decode_set_ex(key: Seq<char>, value: Seq<char>, secs: Seq<char>, now: Timestamp)
    requires
        valid_time(now),
        parse_i64_spec(secs) is Some,
        time_of_nanos(nanos_of(now) + parse_i64_spec(secs).unwrap() * 1_000_000_000) is Some,
    ensures
        decode_spec(seq!["set"@, key, value, "ex"@, secs], now) == DecodeSpec::Done(
            Ok(
                CommandSpec::SetCommand(
                    SetSpec {
                        key,
                        value,
                        ttl: Some(
                            Ttl::Ex(
                                time_of_nanos(
                                    nanos_of(now) + parse_i64_spec(secs).unwrap() * 1_000_000_000,
                                ).unwrap(),
                            ),
                        ),
                        flag: None,
                        get: false,
                    },
                ),
            ),
        ),
{
    lemma_words();
    let inp = seq!["set"@, key, value, "ex"@, secs];
    let n = parse_i64_spec(secs).unwrap();
    let t = time_of_nanos(nanos_of(now) + n * 1_000_000_000).unwrap();
    assert(inp[0] == "set"@);
    assert(inp[3] == "ex"@);
    assert(inp[4] == secs);
    assert("set"@ != "get"@) by {
        assert("set"@[0] != "get"@[0]);
    }
    assert("ex"@ != "nx"@ && "ex"@ != "xx"@ && "ex"@ != "get"@) by {
        assert("ex"@[0] != "nx"@[0]);
        assert("ex"@[0] != "xx"@[0]);
        assert("ex"@.len() != "get"@.len());
    }
    assert(nanos_of(now) >= MIN_SECS * 1_000_000_000);
    assert(nanos_of(now) <= MAX_SECS * 1_000_000_000 + 999_999_999);
    assert(-9_223_372_036_854_775 <= n <= 9_223_372_036_854_775);
    assert(checked_add_spec(now, n * 1000) == Some(t));
    let done = SetOptions { ttl: Some(Ttl::Ex(t)), flag: None, get: false };
    assert(scan_options(inp, 5, done, now) == ScanSpec::Done(done));
    assert(scan_options(inp, 3, SetOptions { ttl: None, flag: None, get: false }, now)
        == ScanSpec::Done(done));
}

/// After `SET key value EX <n>` at time `now_set`, which answers `OK`, the
/// store maps `key` to `value` expiring `n` seconds after `now_set`; `GET
/// key` at any time not before then answers null and removes `key`, and
/// at any earlier time answers with `value`.
pub proof fn law_set_ex_then_get(
    store: Map<Seq<char>, DataView>,
    key: Seq<char>,
    value: Seq<char>,
    secs: Seq<char>,
    now_set: Timestamp,
    now_get: Timestamp,
    is_replica: bool,
)
    requires
        valid_time(now_set),
        valid_time(now_get),
        parse_i64_spec(secs) is Some,
        time_of_nanos(nanos_of(now_set) + parse_i64_spec(secs).unwrap() * 1_000_000_000) is Some,
    ensures
        ({
            let expiry = time_of_nanos(
                nanos_of(now_set) + parse_i64_spec(secs).unwrap() * 1_000_000_000,
            ).unwrap();
            let after = store.insert(key, (value, Some(expiry)));
            &&& nanos_of(expiry) == nanos_of(now_set) + parse_i64_spec(secs).unwrap()
                * 1_000_000_000
            &&& parse_inputs_spec(store, seq!["set"@, key, value, "ex"@, secs], now_set, is_replica)
                == Some((after, ok_reply()))
            &&& nanos_of(now_get) >= nanos_of(expiry) ==> parse_inputs_spec(
                after,
                seq!["get"@, key],
                now_get,
                is_replica,
            ) == Some((after.remove(key), null_reply()))
            &&& nanos_of(now_get) < nanos_of(expiry) ==> parse_inputs_spec(
                after,
                seq!["get"@, key],
                now_get,
                is_replica,
            ) == Some((after, bulk_reply(value)))
        }),
{
    lemma_decode_set_ex(key, value, secs, now_set);
    lemma_decode_get(key, now_get);
    let n = nanos_of(now_set) + parse_i64_spec(secs).unwrap() * 1_000_000_000;
    let expiry = time_of_nanos(n).unwrap();
    assert(nanos_of(expiry) == n);
    let after = store.insert(key, (value, Some(expiry)));
    assert(after.contains_key(key) && after[key] == (value, Some(expiry)));
}

/// Whenever `SET` takes effect (no `NX` on a present key, no `XX` on a
/// missing one, no `GET` on a missing one), it stores its value under its
/// key, leaving every other key as it was, with the expiry time that its
/// expiry option carries; no expiry option stores none, and `KEEPTTL`
/// keeps the previous value's expiry.
pub proof fn law_set_stores_value_and_expiry(store: Map<Seq<char>, DataView>, s: SetSpec)
    requires
        !(s.flag == Some(SetFlag::Nx) && store.contains_key(s.key)),
        !(s.flag == Some(SetFlag::Xx) && !store.contains_key(s.key)),
        !(s.get && !store.contains_key(s.key)),
    ensures
        ({
            let after = set_spec(store, s).0;
            &&& after.contains_key(s.key)
            &&& after[s.key].0 == s.value
            &&& forall|k: Seq<char>| k != s.key ==> (#[trigger] after.contains_key(k)
                == store.contains_key(k) && (store.contains_key(k) ==> after[k] == store[k]))
            &&& after.dom() == store.dom().insert(s.key)
            &&& s.ttl is None ==> after[s.key].1 is None
            &&& s.ttl matches Some(Ttl::Ex(t)) ==> after[s.key].1 == Some(t)
            &&& s.ttl matches Some(Ttl::Px(t)) ==> after[s.key].1 == Some(t)
            &&& s.ttl matches Some(Ttl::Exat(t)) ==> after[s.key].1 == Some(t)
            &&& s.ttl matches Some(Ttl::Pxat(t)) ==> after[s.key].1 == Some(t)
            &&& s.ttl == Some(Ttl::Keepttl) ==> after[s.key].1 == (if store.contains_key(s.key) {
                store[s.key].1
            } else {
                None
            })
        }),
{
    let after = set_spec(store, s).0;
    assert(after.dom() =~= store.dom().insert(s.key));
}

/// The character of the decimal digit `d`.
pub open spec fn digit_char(d: nat) -> char {
    if d == 0 {
        '0'
    } else if d == 1 {
        '1'
    } else if d == 2 {
        '2'
    } else if d == 3 {
        '3'
    } else if d == 4 {
        '4'
    } else if d == 5 {
        '5'
    } else if d == 6 {
        '6'
    } else if d == 7 {
        '7'
    } else if d == 8 {
        '8'
    } else {
        '9'
    }
}

/// The decimal digits of `n`, most significant first, as characters.
pub open spec fn decimal_text(n: nat) -> Seq<char>
    decreases n,
{
    if n < 10 {
        seq![digit_char(n)]
    } else {
        decimal_text(n / 10).push(digit_char(n % 10))
    }
}

/// The character of a digit stands for that digit.
proof fn lemma_digit_char_value(d: nat)
    requires
        d < 10,
    ensures
        (digit_char(d) as u32) - ('0' as u32) == d,
        is_digit(digit_char(d)),
{
}

/// The decimal digits of `n` are digits, at least one, and read back as
/// `n`.
proof fn lemma_decimal_text(n: nat)
    ensures
        decimal_text(n).len() >= 1,
        all_digits(decimal_text(n)),
        digits_value(decimal_text(n)) == n,
    decreases n,
{
    let d = decimal_text(n);
    if n < 10 {
        lemma_digit_char_value(n);
        assert(d.drop_last() =~= Seq::<char>::empty());
        assert(d.last() == digit_char(n));
        assert(digits_value(d.drop_last()) == 0);
        assert(is_digit(d[0]));
    } else {
        lemma_decimal_text(n / 10);
        lemma_digit_char_value(n % 10);
        let p = decimal_text(n / 10);
        assert(d.drop_last() =~= p);
        assert(n == (n / 10) * 10 + n % 10);
        assert(d.last() == digit_char(n % 10));
        assert(digits_value(d) == digits_value(p) * 10 + ((d.last() as u32) - ('0' as u32)) as nat);
        assert(is_digit(digit_char(n % 10)));
        assert forall|i: int| 0 <= i < d.len() implies #[trigger] is_digit(d[i]) by {
            if i < p.len() {
                assert(d[i] == p[i]);
                assert(is_digit(p[i]));
            }
        }
    }
}

/// A digit is not whitespace.
proof fn lemma_digit_not_whitespace(c: char)
    requires
        is_digit(c),
    ensures
        !is_whitespace(c),
{
}

/// An array header line, `*` and the decimal digits of any `usize` `n`
/// ended by CRLF, announces an array of `n` elements: no array length that
/// reads as a `usize` is refused.
pub proof fn law_array_header_reads_its_length(n: usize)
    ensures
        header_spec(seq!['*'] + decimal_text(n as nat) + seq!['\r', '\n']) == HeaderSpec::Array(n),
{
    let d = decimal_text(n as nat);
    lemma_decimal_text(n as nat);
    let body = seq!['*'] + d;
    let line = body + seq!['\r', '\n'];
    assert(line[0] == '*');
    assert(trim_start(line) == line);
    assert(line.drop_last() =~= body + seq!['\r']);
    assert((body + seq!['\r']).drop_last() =~= body);
    assert(body.last() == d.last());
    assert(is_digit(d[d.len() - 1]));
    lemma_digit_not_whitespace(d.last());
    assert(trim_end(body) == body);
    assert(trim_end(body + seq!['\r']) == body);
    assert(trim_end(line) == body);
    assert(trimmed(line) == body);
    assert(body.drop_first() =~= d);
    assert(is_digit(d[0]));
    lemma_digit_not_whitespace(d[0]);
    assert(trim_start(d) == d);
    assert(trim_end(d) == d);
    assert(trimmed(d) == d);
    assert(d[0] != '+');
    assert(parse_unsigned(d) == Some(n as nat));
}

/// Any header line whose trimmed text is `*` and a length that, trimmed,
/// reads as a `usize` announces an array of that many elements.
pub proof fn law_array_header_never_refused(line: Seq<char>)
    requires
        trimmed(line).len() > 0,
        trimmed(line)[0] == '*',
        parse_usize_spec(trimmed(trimmed(line).drop_first())) is Some,
    ensures
        header_spec(line) == HeaderSpec::Array(
            parse_usize_spec(trimmed(trimmed(line).drop_first())).unwrap(),
        ),
{
}

/// The UTF-8 encoding of two texts one after the other is the encoding of
/// the first followed by that of the second.
pub proof fn lemma_encode_utf8_concat(a: Seq<char>, b: Seq<char>)
    ensures
        encode_utf8(a + b) == encode_utf8(a) + encode_utf8(b),
    decreases a.len(),
{
    if a.len() > 0 {
        lemma_encode_utf8_concat(a.drop_first(), b);
        assert((a + b).drop_first() =~= a.drop_first() + b);
        assert((a + b)[0] == a[0]);
        assert(encode_utf8(a + b) =~= encode_utf8(a) + encode_utf8(b));
    } else {
        assert(a + b =~= b);
    }
}

/// The `REPLCONF listening-port` message for any port is a RESP array
/// whose last element is a well-formed bulk string of the port's decimal
/// digits: the length it announces is the number of bytes that follow.
pub proof fn law_replconf_port_is_bulk(port: u16)
    ensures
        replconf_port_message(port) == encode_utf8(
            "*3\r\n$8\r\nREPLCONF\r\n$14\r\nlistening-port\r\n"@,
        ) + bulk_bytes(decimal(port as nat)),
{
    reveal_strlit("*3\r\n$8\r\nREPLCONF\r\n$14\r\nlistening-port\r\n$");
    reveal_strlit("*3\r\n$8\r\nREPLCONF\r\n$14\r\nlistening-port\r\n");
    reveal_strlit("$");
    let head = "*3\r\n$8\r\nREPLCONF\r\n$14\r\nlistening-port\r\n"@;
    assert("*3\r\n$8\r\nREPLCONF\r\n$14\r\nlistening-port\r\n$"@ =~= head + "$"@);
    lemma_encode_utf8_concat(head, "$"@);
    let d = decimal(port as nat);
    assert(replconf_port_message(port) =~= encode_utf8(head) + bulk_bytes(d));
}

} // verus!
