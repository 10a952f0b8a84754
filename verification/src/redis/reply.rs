//! The RESP replies that the server sends.

use vstd::prelude::*;
use vstd::utf8::encode_utf8;

use crate::redis::text::{decimal, push_bytes, push_decimal, push_str};

verus! {

/// The reply for a missing value: a null bulk string.
pub const NULL_REPLY: &'static str = "$-1\r\n";

/// The reply for a successful write.
pub const OK_REPLY: &'static str = "+OK\r\n";

/// The bytes of the null bulk string.
pub open spec fn null_reply() -> Seq<u8> {
    encode_utf8(NULL_REPLY@)
}

/// The bytes of the `OK` status.
pub open spec fn ok_reply() -> Seq<u8> {
    encode_utf8(OK_REPLY@)
}

/// A bulk string holding the bytes `b`: `$`, their number, CRLF, the
/// bytes, CRLF.
pub open spec fn bulk_bytes(b: Seq<u8>) -> Seq<u8> {
    encode_utf8("$"@) + decimal(b.len()) + encode_utf8("\r\n"@) + b + encode_utf8("\r\n"@)
}

/// A bulk string holding the UTF-8 encoding of `v`.
pub open spec fn bulk_reply(v: Seq<char>) -> Seq<u8> {
    bulk_bytes(encode_utf8(v))
}

/// Appends a bulk string holding `b` to `out`.
pub fn push_bulk_bytes(out: &mut Vec<u8>, b: &[u8])
    ensures
        final(out)@ == old(out)@ + bulk_bytes(b@),
{
    push_str(out, "$");
    push_decimal(out, b.len());
    push_str(out, "\r\n");
    push_bytes(out, b);
    push_str(out, "\r\n");
    proof {
        assert(final(out)@ =~= old(out)@ + bulk_bytes(b@));
    }
}

/// Appends a bulk string holding the text `s` to `out`.
pub fn push_bulk(out: &mut Vec<u8>, s: &str)
    ensures
        final(out)@ == old(out)@ + bulk_reply(s@),
{
    push_bulk_bytes(out, s.as_bytes());
}

/// The bytes of the text `s`.
pub fn text_reply(s: &str) -> (r: Vec<u8>)
    ensures
        r@ == encode_utf8(s@),
{
    let mut out: Vec<u8> = Vec::new();
    push_str(&mut out, s);
    proof {
        assert(out@ =~= encode_utf8(s@));
    }
    out
}

} // verus!
