//! Carrying out `SET` on the store.

use vstd::prelude::*;

use crate::redis::decoder::{SetCommand, SetFlag, SetSpec, Ttl};
use crate::redis::reply::{
    bulk_reply, null_reply, ok_reply, push_bulk, text_reply, NULL_REPLY, OK_REPLY,
};
use crate::redis::clock::Timestamp;
use crate::redis::store::Store;
use crate::redis::{Data, DataView};

verus! {

/// The expiry time that `SET` stores: none without an expiry option; the
/// previous value's with `KEEPTTL`; else the time the option gives.
pub open spec fn set_expiry(ttl: Option<Ttl>, prev: Option<DataView>) -> Option<Timestamp> {
    match ttl {
        None => None,
        Some(Ttl::Keepttl) => match prev {
            Some(p) => p.1,
            None => None,
        },
        Some(Ttl::Ex(t)) => Some(t),
        Some(Ttl::Px(t)) => Some(t),
        Some(Ttl::Exat(t)) => Some(t),
        Some(Ttl::Pxat(t)) => Some(t),
    }
}

/// `SET` on a store: the store after it and the reply (empty when nothing
/// is sent). With `NX` on a present key, or `XX` on a missing one, nothing
/// changes and nothing is sent; with `GET` on a missing key, nothing
/// changes and the null reply is sent. Otherwise the value is stored, and
/// the reply is the previous value with `GET`, `OK` without.
pub open spec fn set_spec(store: Map<Seq<char>, DataView>, s: SetSpec) -> (
    Map<Seq<char>, DataView>,
    Seq<u8>,
) {
    let prev = if store.contains_key(s.key) {
        Some(store[s.key])
    } else {
        None
    };
    if s.flag == Some(SetFlag::Nx) && prev is Some {
        (store, Seq::empty())
    } else if s.flag == Some(SetFlag::Xx) && prev is None {
        (store, Seq::empty())
    } else if s.get && prev is None {
        (store, null_reply())
    } else {
        let stored = store.insert(s.key, (s.value, set_expiry(s.ttl, prev)));
        if s.get {
            (stored, bulk_reply(prev.unwrap().0))
        } else {
            (stored, ok_reply())
        }
    }
}

/// Carries out `SET` on `store` and gives the reply to send (empty when
/// nothing is sent).
pub fn set_parse(set: SetCommand, store: &mut Store) -> (reply: Vec<u8>)
    requires
        set.valid(),
    ensures
        (final(store)@, reply@) == set_spec(old(store)@, set@),
{
    let ghost s = set@;
    let prev: Option<Data> = match store.get(set.key.as_str()) {
        Some(d) => Some(d.duplicate()),
        None => None,
    };
    if let Some(flag) = set.flag {
        match flag {
            SetFlag::Nx => {
                if prev.is_some() {
                    return Vec::new();
                }
            },
            SetFlag::Xx => {
                if prev.is_none() {
                    return Vec::new();
                }
            },
        }
    }
    if set.get && prev.is_none() {
        return text_reply(NULL_REPLY);
    }
    let expires_at = match set.ttl {
        Some(ttl) => match ttl {
            Ttl::Keepttl => match &prev {
                Some(p) => p.expires_at,
                None => None,
            },
            Ttl::Ex(t) => Some(t),
            Ttl::Px(t) => Some(t),
            Ttl::Exat(t) => Some(t),
            Ttl::Pxat(t) => Some(t),
        },
        None => None,
    };
    store.insert(set.key, Data { value: set.value, expires_at });
    if set.get {
        let mut out: Vec<u8> = Vec::new();
        match &prev {
            Some(p) => push_bulk(&mut out, p.value.as_str()),
            None => {},
        }
        proof {
            assert(out@ =~= bulk_reply(prev.unwrap().value@));
        }
        out
    } else {
        text_reply(OK_REPLY)
    }
}

} // verus!
