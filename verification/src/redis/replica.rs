//! The messages of the handshake with a master, and reading the length
//! of the database it sends back.

use vstd::prelude::*;
use vstd::utf8::encode_utf8;

use crate::redis::text::{
    decimal, parse_usize, parse_usize_spec, push_bytes, push_decimal, push_str, trim, trimmed,
};

verus! {

/// The first message of the handshake: `PING`.
pub const PING_MESSAGE: &'static str = "*1\r\n$4\r\nping\r\n";

/// The third message of the handshake: `REPLCONF capa psync2`.
pub const REPLCONF_CAPA_MESSAGE: &'static str = "*3\r\n$8\r\nREPLCONF\r\n$4\r\ncapa\r\n$6\r\npsync2\r\n";

/// The last message of the handshake: `PSYNC ? -1`.
pub const PSYNC_MESSAGE: &'static str = "*3\r\n$5\r\nPSYNC\r\n$1\r\n?\r\n$2\r\n-1\r\n";

/// The second message of the handshake, `REPLCONF listening-port <port>`,
/// with the port in decimal as its last bulk string.
pub open spec fn replconf_port_message(port: u16) -> Seq<u8> {
    encode_utf8("*3\r\n$8\r\nREPLCONF\r\n$14\r\nlistening-port\r\n$"@) + decimal(
        decimal(port as nat).len(),
    ) + encode_utf8("\r\n"@) + decimal(port as nat) + encode_utf8("\r\n"@)
}

/// The `REPLCONF listening-port` message for `port`.
pub fn replconf_listening_port(port: u16) -> (r: Vec<u8>)
    ensures
        r@ == replconf_port_message(port),
{
    let mut digits: Vec<u8> = Vec::new();
    push_decimal(&mut digits, port as usize);
    let mut out: Vec<u8> = Vec::new();
    push_str(&mut out, "*3\r\n$8\r\nREPLCONF\r\n$14\r\nlistening-port\r\n$");
    push_decimal(&mut out, digits.len());
    push_str(&mut out, "\r\n");
    push_bytes(&mut out, digits.as_slice());
    push_str(&mut out, "\r\n");
    proof {
        assert(digits@ =~= decimal(port as nat));
        assert(out@ =~= replconf_port_message(port));
    }
    out
}

/// `s` without its leading `$` characters.
pub open spec fn skip_dollars(s: Seq<char>) -> Seq<char>
    decreases s.len(),
{
    if s.len() > 0 && s[0] == '$' {
        skip_dollars(s.drop_first())
    } else {
        s
    }
}

/// The characters of `s` before its first `$`.
pub open spec fn until_dollar(s: Seq<char>) -> Seq<char>
    decreases s.len(),
{
    if s.len() == 0 || s[0] == '$' {
        Seq::empty()
    } else {
        seq![s[0]] + until_dollar(s.drop_first())
    }
}

/// The first non-empty field of `line` split at `$`, as
/// `line.split('$').find(|x| !x.is_empty())` gives it.
pub open spec fn first_field(line: Seq<char>) -> Option<Seq<char>> {
    let t = skip_dollars(line);
    if t.len() == 0 {
        None
    } else {
        Some(until_dollar(t))
    }
}

/// The length of the database a master sends, from the line that
/// announces it (`$<length>`): its first non-empty `$`-field, trimmed,
/// read as a `usize`.
pub open spec fn rdb_length_spec(line: Seq<char>) -> Option<usize> {
    match first_field(line) {
        None => None,
        Some(f) => parse_usize_spec(trimmed(f)),
    }
}

/// Reads the length of the database a master sends from the line that
/// announces it.
pub fn rdb_length(line: &str) -> (r: Option<usize>)
    ensures
        r == rdb_length_spec(line@),
{
    let n = line.unicode_len();
    let mut i: usize = 0;
    proof {
        assert(line@.subrange(0, n as int) =~= line@);
    }
    while i < n && line.get_char(i) == '$'
        invariant
            0 <= i <= n,
            n == line@.len(),
            skip_dollars(line@) == skip_dollars(line@.subrange(i as int, n as int)),
        decreases n - i,
    {
        proof {
            assert(line@.subrange(i as int, n as int).drop_first() =~= line@.subrange(
                i + 1,
                n as int,
            ));
        }
        i = i + 1;
    }
    proof {
        let t = line@.subrange(i as int, n as int);
        if i < n {
            assert(t[0] == line@[i as int]);
        }
        assert(skip_dollars(line@) == t);
    }
    if i == n {
        return None;
    }
    let mut j: usize = i;
    proof {
        assert(line@.subrange(i as int, j as int) =~= Seq::<char>::empty());
    }
    while j < n && line.get_char(j) != '$'
        invariant
            i <= j <= n,
            n == line@.len(),
            until_dollar(line@.subrange(i as int, n as int)) == line@.subrange(i as int, j as int)
                + until_dollar(line@.subrange(j as int, n as int)),
        decreases n - j,
    {
        proof {
            let t = line@.subrange(j as int, n as int);
            assert(t[0] == line@[j as int]);
            assert(t.drop_first() =~= line@.subrange(j + 1, n as int));
            assert(line@.subrange(i as int, j + 1) =~= line@.subrange(i as int, j as int) + seq![
                line@[j as int],
            ]);
        }
        j = j + 1;
    }
    proof {
        let t = line@.subrange(j as int, n as int);
        if j < n {
            assert(t[0] == line@[j as int]);
        }
        assert(until_dollar(t) =~= Seq::<char>::empty());
        assert(line@.subrange(i as int, j as int) + until_dollar(t) =~= line@.subrange(
            i as int,
            j as int,
        ));
    }
    let field = line.substring_char(i, j);
    parse_usize(trim(field))
}

} // verus!
