//! Reading requests in the RESP framing and answering them.
//!
//! A client sends an array header (`*<n>`) and then, for each element, a
//! bulk string: a header line (`$<len>`) and a data line. The connection
//! loop reads the lines; the functions here decide what each line means
//! and what to reply.

use vstd::prelude::*;
use vstd::utf8::encode_utf8;

use crate::redis::clock::{
    datetime_signed_duration_since, nanos_of, utc_now, valid_time, Timestamp,
};
use crate::redis::decoder::{
    decode_at, words, CommandSpec, CommandType, DecodeOutcome, DecodeSpec, InfoSelection,
    decode_spec,
};
use crate::redis::reply::{
    bulk_bytes, bulk_reply, null_reply, push_bulk, push_bulk_bytes, text_reply, NULL_REPLY,
};
use crate::redis::set_parse::{set_parse, set_spec};
use crate::redis::store::Store;
use crate::redis::text::{
    join, parse_usize, parse_usize_spec, push_str, trim, trim_bytes, trimmed, trimmed_bytes,
};
use crate::redis::{get_redis_type, spec_redis_type, DataView, RedisType};

verus! {

/// The lines of the `replication` section of `INFO`, before the role.
pub const REPLICATION_HEAD: &'static str = "# Replication\nrole:";

/// The lines of the `replication` section of `INFO`, after the role.
pub const REPLICATION_TAIL: &'static str = "\nconnected_slaves:0\nmaster_replid:8371b4fb1155b71f4a04d3e1bc3e18c4a990aeeb\nmaster_repl_offset:0\nsecond_repl_offset:-1";

/// The role a server reports: `slave` when it replicates a master.
pub open spec fn role(is_replica: bool) -> Seq<char> {
    if is_replica {
        "slave"@
    } else {
        "master"@
    }
}

/// The text of one `INFO` section: the replication section, or nothing
/// for a section that is not implemented.
pub open spec fn section_text(sel: InfoSelection, is_replica: bool) -> Seq<u8> {
    match sel {
        InfoSelection::Replication => encode_utf8(REPLICATION_HEAD@) + encode_utf8(role(is_replica))
            + encode_utf8(REPLICATION_TAIL@),
        InfoSelection::Unimplimented => Seq::empty(),
    }
}

/// The body of the `INFO` reply: the sections joined by CRLF, without
/// leading and trailing whitespace.
pub open spec fn info_text(sections: Seq<InfoSelection>, is_replica: bool) -> Seq<u8> {
    trimmed_bytes(
        join(
            sections.map_values(|s: InfoSelection| section_text(s, is_replica)),
            encode_utf8("\r\n"@),
        ),
    )
}

/// `GET` on a store at time `now`: the store after it and the reply. A
/// missing key gives the null reply; a value whose expiry time is not
/// after `now` is removed and gives the null reply; any other value is
/// sent as a bulk string.
pub open spec fn get_spec(store: Map<Seq<char>, DataView>, key: Seq<char>, now: Timestamp) -> (
    Map<Seq<char>, DataView>,
    Seq<u8>,
) {
    if !store.contains_key(key) {
        (store, null_reply())
    } else {
        let d = store[key];
        match d.1 {
            None => (store, bulk_reply(d.0)),
            Some(t) => if nanos_of(t) - nanos_of(now) <= 0 {
                (store.remove(key), null_reply())
            } else {
                (store, bulk_reply(d.0))
            },
        }
    }
}

/// Answering a request at time `now`: the store after it and the reply,
/// or `None` where the request aborts the connection (a malformed `SET`
/// option, a relative expiry that `DateTime<Utc>` cannot hold, or `INFO`
/// without a section).
pub open spec fn parse_inputs_spec(
    store: Map<Seq<char>, DataView>,
    inputs: Seq<Seq<char>>,
    now: Timestamp,
    is_replica: bool,
) -> Option<(Map<Seq<char>, DataView>, Seq<u8>)> {
    if inputs.len() == 0 {
        Some((store, encode_utf8("-ERR invalid commands\r\n"@)))
    } else {
        match decode_spec(inputs, now) {
            DecodeSpec::Malformed => None,
            DecodeSpec::ClockOutOfRange => None,
            DecodeSpec::Done(Err(_)) => Some(
                (store, encode_utf8("-ERR "@) + encode_utf8("Invalid input for decode"@)),
            ),
            DecodeSpec::Done(Ok(cmd)) => match cmd {
                CommandSpec::Ping => Some((store, encode_utf8("+PONG\r\n"@))),
                CommandSpec::Echo(v) => Some(
                    (
                        store,
                        if v.len() == 0 {
                            null_reply()
                        } else {
                            bulk_reply(v)
                        },
                    ),
                ),
                CommandSpec::SetCommand(s) => Some(set_spec(store, s)),
                CommandSpec::Get(k) => Some(get_spec(store, k, now)),
                CommandSpec::Info(None) => None,
                CommandSpec::Info(Some(sections)) => Some(
                    (store, bulk_bytes(info_text(sections, is_replica))),
                ),
            },
        }
    }
}

/// The body of the `INFO` reply for the given sections.
fn info_body(sections: &Vec<InfoSelection>, is_replica: bool) -> (r: Vec<u8>)
    ensures
        r@ == info_text(sections@, is_replica),
{
    let ghost parts = sections@.map_values(|s: InfoSelection| section_text(s, is_replica));
    let ghost sep = encode_utf8("\r\n"@);
    let mut joined: Vec<u8> = Vec::new();
    let mut i: usize = 0;
    while i < sections.len()
        invariant
            0 <= i <= sections@.len(),
            parts == sections@.map_values(|s: InfoSelection| section_text(s, is_replica)),
            sep == encode_utf8("\r\n"@),
            joined@ == join(parts.take(i as int), sep),
        decreases sections@.len() - i,
    {
        let ghost before = joined@;
        if i > 0 {
            push_str(&mut joined, "\r\n");
        }
        match sections[i] {
            InfoSelection::Replication => {
                push_str(&mut joined, REPLICATION_HEAD);
                if is_replica {
                    push_str(&mut joined, "slave");
                } else {
                    push_str(&mut joined, "master");
                }
                push_str(&mut joined, REPLICATION_TAIL);
            },
            InfoSelection::Unimplimented => {},
        }
        proof {
            let t = parts.take(i + 1);
            assert(t.last() == parts[i as int]);
            assert(parts[i as int] == section_text(sections@[i as int], is_replica));
            if i > 0 {
                assert(t.drop_last() =~= parts.take(i as int));
                assert(joined@ =~= before + sep + parts[i as int]);
            } else {
                assert(joined@ =~= parts[0]);
            }
        }
        i = i + 1;
    }
    proof {
        assert(parts.take(sections@.len() as int) =~= parts);
    }
    trim_bytes(&joined)
}

/// Carries out `GET key` on `store` at time `now`.
fn get_value(key: &str, store: &mut Store, now: Timestamp) -> (reply: Vec<u8>)
    requires
        valid_time(now),
    ensures
        (final(store)@, reply@) == get_spec(old(store)@, key@, now),
{
    let mut out: Vec<u8> = Vec::new();
    let expired = match store.get(key) {
        None => {
            return text_reply(NULL_REPLY);
        },
        Some(data) => match data.expires_at {
            None => {
                push_bulk(&mut out, data.value.as_str());
                false
            },
            Some(t) => {
                let (secs, nanos) = datetime_signed_duration_since(t, now);
                if secs < 0 || (secs == 0 && nanos <= 0) {
                    true
                } else {
                    push_bulk(&mut out, data.value.as_str());
                    false
                }
            },
        },
    };
    if expired {
        store.remove(key);
        text_reply(NULL_REPLY)
    } else {
        proof {
            assert(out@ =~= bulk_reply(old(store)@[key@].0));
        }
        out
    }
}

/// Answers the request `inputs` at time `now`, on `store`; `is_replica`
/// says whether this server replicates a master. `None` where the request
/// aborts the connection; else the reply, empty when nothing is sent.
pub fn parse_inputs_at(inputs: Vec<String>, store: &mut Store, now: Timestamp, is_replica: bool) -> (r:
    Option<Vec<u8>>)
    requires
        valid_time(now),
    ensures
        match parse_inputs_spec(old(store)@, words(inputs@), now, is_replica) {
            Some((m, reply)) => r matches Some(v) && v@ == reply && final(store)@ == m,
            None => r is None && final(store)@ == old(store)@,
        },
{
    if inputs.len() == 0 {
        return Some(text_reply("-ERR invalid commands\r\n"));
    }
    let command = match decode_at(&inputs, now) {
        DecodeOutcome::Decoded(Ok(c)) => c,
        DecodeOutcome::Decoded(Err(err)) => {
            let mut out = text_reply("-ERR ");
            let text = err.message();
            push_str(&mut out, text.as_str());
            return Some(out);
        },
        DecodeOutcome::Malformed => {
            return None;
        },
        DecodeOutcome::ClockOutOfRange => {
            return None;
        },
    };
    match command {
        CommandType::Ping => Some(text_reply("+PONG\r\n")),
        CommandType::Echo(val) => {
            if val.as_str().is_empty() {
                return Some(text_reply(NULL_REPLY));
            }
            let mut out: Vec<u8> = Vec::new();
            push_bulk(&mut out, val.as_str());
            proof {
                assert(out@ =~= bulk_reply(val@));
            }
            Some(out)
        },
        CommandType::SetCommand(set) => Some(set_parse(set, store)),
        CommandType::Get(get) => Some(get_value(get.key.as_str(), store, now)),
        CommandType::Info(info) => match info.section {
            None => None,
            Some(sections) => {
                let body = info_body(&sections, is_replica);
                let mut out: Vec<u8> = Vec::new();
                push_bulk_bytes(&mut out, body.as_slice());
                proof {
                    assert(out@ =~= bulk_bytes(body@));
                }
                Some(out)
            },
        },
    }
}

/// Whether `r` and `after` are what answering `inputs` on `before` at
/// time `now` gives, the reply `None` standing for an abort.
pub open spec fn parse_inputs_relation(
    before: Map<Seq<char>, DataView>,
    inputs: Seq<Seq<char>>,
    now: Timestamp,
    is_replica: bool,
    r: Option<Seq<u8>>,
    after: Map<Seq<char>, DataView>,
) -> bool {
    match parse_inputs_spec(before, inputs, now, is_replica) {
        Some((m, reply)) => r == Some(reply) && after == m,
        None => r is None && after == before,
    }
}

/// The reply bytes, if any.
pub open spec fn reply_view(r: Option<Vec<u8>>) -> Option<Seq<u8>> {
    match r {
        Some(v) => Some(v@),
        None => None,
    }
}

/// Answers the request `inputs` on `store`, reading the clock for expiry
/// times: the answer at some time, not before the Unix epoch, that
/// `DateTime<Utc>` can hold. `None`
/// where the request aborts the connection; else the reply, empty when
/// nothing is sent.
pub fn parse_inputs(inputs: Vec<String>, store: &mut Store, is_replica: bool) -> (r: Option<
    Vec<u8>,
>)
    ensures
        exists|now: Timestamp|
            valid_time(now) && now.secs >= 0 && #[trigger] parse_inputs_relation(
                old(store)@,
                words(inputs@),
                now,
                is_replica,
                reply_view(r),
                final(store)@,
            ),
{
    let now = utc_now();
    let ghost ws = words(inputs@);
    let ghost before = store@;
    let r = parse_inputs_at(inputs, store, now, is_replica);
    proof {
        assert(parse_inputs_relation(before, ws, now, is_replica, reply_view(r), store@));
    }
    r
}

/// What an array header line means, the line having been read.
pub enum Header {
    /// A line that is empty but for whitespace: stop reading, without
    /// flushing or shutting the stream down.
    Blank,
    /// A line whose first character names no RESP type: send the reply and
    /// stop reading, without flushing or shutting the stream down.
    Unknown(Vec<u8>),
    /// A line of another type than an array, or an array whose length does
    /// not read: send the reply, then flush and shut the stream down.
    Reject(Vec<u8>),
    /// An array of this many elements.
    Array(usize),
}

/// What an array header line means.
pub enum HeaderSpec {
    Blank,
    Unknown(Seq<u8>),
    Reject(Seq<u8>),
    Array(usize),
}

impl View for Header {
    type V = HeaderSpec;

    open spec fn view(&self) -> HeaderSpec {
        match self {
            Header::Blank => HeaderSpec::Blank,
            Header::Unknown(v) => HeaderSpec::Unknown(v@),
            Header::Reject(v) => HeaderSpec::Reject(v@),
            Header::Array(n) => HeaderSpec::Array(*n),
        }
    }
}

/// An array header line, trimmed: blank; of an unknown type (answered,
/// then reading stops); an array
/// whose length, trimmed, reads as a `usize`; an array whose length does
/// not; or of another type.
pub open spec fn header_spec(line: Seq<char>) -> HeaderSpec {
    let t = trimmed(line);
    if t.len() == 0 {
        HeaderSpec::Blank
    } else {
        match spec_redis_type(t) {
            None => HeaderSpec::Unknown(encode_utf8("-Error Unknown Input\r\n"@)),
            Some(RedisType::Array) => match parse_usize_spec(trimmed(t.drop_first())) {
                Some(n) => HeaderSpec::Array(n),
                None => HeaderSpec::Reject(encode_utf8("-ERR invalid input length\r\n"@)),
            },
            Some(_) => HeaderSpec::Reject(encode_utf8("-ERR Unexpected input type\r\n"@)),
        }
    }
}

/// Reads an array header line.
pub fn read_header(line: &str) -> (r: Header)
    ensures
        r@ == header_spec(line@),
{
    let input_str = trim(line);
    if input_str.is_empty() {
        return Header::Blank;
    }
    match get_redis_type(input_str) {
        None => Header::Unknown(text_reply("-Error Unknown Input\r\n")),
        Some(RedisType::Array) => {
            let rest = input_str.substring_char(1, input_str.unicode_len());
            proof {
                assert(rest@ =~= input_str@.drop_first());
            }
            match parse_usize(trim(rest)) {
                Some(n) => Header::Array(n),
                None => Header::Reject(text_reply("-ERR invalid input length\r\n")),
            }
        },
        Some(_) => Header::Reject(text_reply("-ERR Unexpected input type\r\n")),
    }
}

/// What an element's header line means.
pub enum Element {
    /// A bulk string, with its length if the line gives one that reads.
    Bulk(Option<usize>),
    /// Not a bulk string: send the reply and go on with the next element.
    Invalid(Vec<u8>),
}

/// What an element's header line means.
pub enum ElementSpec {
    Bulk(Option<usize>),
    Invalid(Seq<u8>),
}

impl View for Element {
    type V = ElementSpec;

    open spec fn view(&self) -> ElementSpec {
        match self {
            Element::Bulk(n) => ElementSpec::Bulk(*n),
            Element::Invalid(v) => ElementSpec::Invalid(v@),
        }
    }
}

/// An element's header line: a bulk string header, with the length after
/// its `$`, trimmed, read as a `usize`; anything else is not an element
/// that can be read.
pub open spec fn element_spec(line: Seq<char>) -> ElementSpec {
    match spec_redis_type(line) {
        Some(RedisType::BulkString) => ElementSpec::Bulk(parse_usize_spec(trimmed(line.drop_first()))),
        _ => ElementSpec::Invalid(encode_utf8("-ERR invalid input type\r\n"@)),
    }
}

/// Reads an element's header line.
pub fn element_kind(buf_type: &str) -> (r: Element)
    ensures
        r@ == element_spec(buf_type@),
{
    match get_redis_type(buf_type) {
        Some(RedisType::BulkString) => {
            let rest = buf_type.substring_char(1, buf_type.unicode_len());
            proof {
                assert(rest@ =~= buf_type@.drop_first());
            }
            Element::Bulk(parse_usize(trim(rest)))
        },
        _ => Element::Invalid(text_reply("-ERR invalid input type\r\n")),
    }
}

/// A bulk string's data line, given the length its header gave: the line
/// trimmed, if the header gave a length and the trimmed line has that
/// many bytes; else the reply to send before the connection ends.
pub open spec fn bulk_element_spec(len: Option<usize>, line: Seq<char>) -> Result<
    Seq<char>,
    Seq<u8>,
> {
    let t = trimmed(line);
    match len {
        None => Err(encode_utf8("-ERR invalid input - no length\r\n"@)),
        Some(n) => if n != encode_utf8(t).len() as usize {
            Err(encode_utf8("-ERR invalid input - incorrect length\r\n"@))
        } else {
            Ok(t)
        },
    }
}

/// The view of a bulk element's result.
pub open spec fn bulk_result_view(r: Result<String, Vec<u8>>) -> Result<Seq<char>, Seq<u8>> {
    match r {
        Ok(s) => Ok(s@),
        Err(v) => Err(v@),
    }
}

/// Reads a bulk string's data line.
pub fn bulk_element(len: Option<usize>, line: &str) -> (r: Result<String, Vec<u8>>)
    ensures
        bulk_result_view(r) == bulk_element_spec(len, line@),
{
    let temp = trim(line);
    match len {
        None => Err(text_reply("-ERR invalid input - no length\r\n")),
        Some(n) => {
            if n != temp.len() {
                Err(text_reply("-ERR invalid input - incorrect length\r\n"))
            } else {
                Ok(temp.to_owned())
            }
        },
    }
}

} // verus!
