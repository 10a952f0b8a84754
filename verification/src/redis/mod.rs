//! Values kept in the store and the RESP type markers.

use vstd::prelude::*;

pub mod clock;
pub mod decoder;
pub mod handle_input;
pub mod laws;
pub mod replica;
pub mod reply;
pub mod set_parse;
pub mod store;
pub mod text;

use crate::redis::clock::{utc_now, valid_time, Timestamp};

verus! {

/// A stored value and the time it expires at, if it does.
#[derive(Debug, Clone)]
pub struct Data {
    pub value: String,
    pub expires_at: Option<Timestamp>,
}

/// What a stored value is: its text and its expiry time.
pub type DataView = (Seq<char>, Option<Timestamp>);

impl View for Data {
    type V = DataView;

    open spec fn view(&self) -> DataView {
        (self.value@, self.expires_at)
    }
}

/// Whether an expiry time, if there is one, is a time that
/// `DateTime<Utc>` can hold.
pub open spec fn valid_expiry(e: Option<Timestamp>) -> bool {
    match e {
        Some(t) => valid_time(t),
        None => true,
    }
}

impl Data {
    /// Whether the expiry time, if any, can be held by `DateTime<Utc>`.
    pub open spec fn valid(&self) -> bool {
        valid_expiry(self.expires_at)
    }

    /// A value with the given text and expiry time.
    pub fn new(data: String, expires: Option<Timestamp>) -> (r: Self)
        requires
            valid_expiry(expires),
        ensures
            r@ == (data@, expires),
            r.valid(),
    {
        Data { value: data, expires_at: expires }
    }

    /// A copy of this value.
    pub fn duplicate(&self) -> (r: Self)
        ensures
            r@ == self@,
    {
        Data { value: self.value.clone(), expires_at: self.expires_at }
    }
}

impl Default for Data {
    /// An empty value that expires now (a time not before the Unix epoch).
    fn default() -> (r: Self)
        ensures
            r.value@ == Seq::<char>::empty(),
            r.expires_at is Some,
            r.expires_at.unwrap().secs >= 0,
            r.valid(),
    {
        Data { value: String::new(), expires_at: Some(utc_now()) }
    }
}

/// The RESP data types, told apart by the first character of a line.
#[derive(Debug, Clone, Copy, PartialEq, Eq)]
pub enum RedisType {
    SimpleString,
    SimpleError,
    Integer,
    BulkString,
    Array,
    Null,
    Boolean,
    Double,
    BigNumber,
    BulkError,
    VerbatimString,
    RespMap,
    RespSet,
    Push,
}

/// The RESP type that a line starting with `c` announces, if any.
pub open spec fn redis_type_of(c: char) -> Option<RedisType> {
    if c == '+' {
        Some(RedisType::SimpleString)
    } else if c == '-' {
        Some(RedisType::SimpleError)
    } else if c == ':' {
        Some(RedisType::Integer)
    } else if c == '$' {
        Some(RedisType::BulkString)
    } else if c == '*' {
        Some(RedisType::Array)
    } else if c == '_' {
        Some(RedisType::Null)
    } else if c == '#' {
        Some(RedisType::Boolean)
    } else if c == ',' {
        Some(RedisType::Double)
    } else if c == '(' {
        Some(RedisType::BigNumber)
    } else if c == '!' {
        Some(RedisType::BulkError)
    } else if c == '=' {
        Some(RedisType::VerbatimString)
    } else if c == '%' {
        Some(RedisType::RespMap)
    } else if c == '~' {
        Some(RedisType::RespSet)
    } else if c == '>' {
        Some(RedisType::Push)
    } else {
        None
    }
}

/// The type of an input line: the one its first character announces; an
/// empty line is read as if it started with a space, which announces none.
pub open spec fn spec_redis_type(s: Seq<char>) -> Option<RedisType> {
    if s.len() == 0 {
        redis_type_of(' ')
    } else {
        redis_type_of(s[0])
    }
}

/// Classifies an input line by its first character.
pub fn get_redis_type(input: &str) -> (r: Option<RedisType>)
    ensures
        r == spec_redis_type(input@),
{
    let c = if input.is_empty() {
        ' '
    } else {
        input.get_char(0)
    };
    match c {
        '+' => Some(RedisType::SimpleString),
        '-' => Some(RedisType::SimpleError),
        ':' => Some(RedisType::Integer),
        '$' => Some(RedisType::BulkString),
        '*' => Some(RedisType::Array),
        '_' => Some(RedisType::Null),
        '#' => Some(RedisType::Boolean),
        ',' => Some(RedisType::Double),
        '(' => Some(RedisType::BigNumber),
        '!' => Some(RedisType::BulkError),
        '=' => Some(RedisType::VerbatimString),
        '%' => Some(RedisType::RespMap),
        '~' => Some(RedisType::RespSet),
        '>' => Some(RedisType::Push),
        _ => None,
    }
}

} // verus!
