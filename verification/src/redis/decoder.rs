//! Decoding of a client's request, a list of words, into a command.

use vstd::prelude::*;

use crate::redis::clock::{
    checked_add_spec, datetime_checked_add_signed, datetime_from_timestamp_millis,
    from_timestamp_millis_spec, time_delta_try_milliseconds, time_delta_try_seconds,
    try_milliseconds_millis, try_seconds_millis, utc_now, valid_time, Timestamp,
};
use crate::redis::text::{lower_is, lowercase, parse_i64, parse_i64_spec, same_text};

verus! {

/// A decoded request.
pub enum CommandType {
    Get(Get),
    SetCommand(SetCommand),
    Echo(String),
    Ping,
    Info(Info),
}

/// `GET key`.
pub struct Get {
    pub key: String,
}

/// When a value set by `SET` expires; every time is a point in time as
/// `DateTime<Utc>` holds it.
#[derive(Debug, Clone, Copy, PartialEq, Eq)]
pub enum Ttl {
    Ex(Timestamp),
    Px(Timestamp),
    Exat(Timestamp),
    Pxat(Timestamp),
    Keepttl,
}

/// The condition under which `SET` writes.
#[derive(Debug, Clone, Copy, PartialEq, Eq)]
pub enum SetFlag {
    Nx,
    Xx,
}

/// `SET key value [options]`.
pub struct SetCommand {
    pub key: String,
    pub value: String,
    pub ttl: Option<Ttl>,
    pub flag: Option<SetFlag>,
    pub get: bool,
}

/// A section that `INFO` asks for.
#[derive(Debug, Clone, Copy, PartialEq, Eq)]
pub enum InfoSelection {
    Replication,
    Unimplimented,
}

/// `INFO [sections]`.
pub struct Info {
    pub section: Option<Vec<InfoSelection>>,
}

/// Why a request was not decoded.
#[derive(Debug, Clone, Copy, PartialEq, Eq)]
pub enum DecodeError {
    Unimplimented,
    SubUnimplimented,
    InvalidCommand,
    InvalidOption,
}

impl DecodeError {
    /// The text that describes every decoding error.
    pub fn message(&self) -> (r: String)
        ensures
            r@ == "Invalid input for decode"@,
    {
        String::from_str("Invalid input for decode")
    }
}

/// The time in an expiry, if it has one.
pub open spec fn ttl_time(t: Ttl) -> Option<Timestamp> {
    match t {
        Ttl::Ex(x) => Some(x),
        Ttl::Px(x) => Some(x),
        Ttl::Exat(x) => Some(x),
        Ttl::Pxat(x) => Some(x),
        Ttl::Keepttl => None,
    }
}

/// Whether the time in an expiry, if any, is one `DateTime<Utc>` can hold.
pub open spec fn valid_ttl(t: Option<Ttl>) -> bool {
    match t {
        Some(x) => match ttl_time(x) {
            Some(m) => valid_time(m),
            None => true,
        },
        None => true,
    }
}

/// What a `SET` command is.
pub struct SetSpec {
    pub key: Seq<char>,
    pub value: Seq<char>,
    pub ttl: Option<Ttl>,
    pub flag: Option<SetFlag>,
    pub get: bool,
}

impl View for SetCommand {
    type V = SetSpec;

    open spec fn view(&self) -> SetSpec {
        SetSpec {
            key: self.key@,
            value: self.value@,
            ttl: self.ttl,
            flag: self.flag,
            get: self.get,
        }
    }
}

impl SetCommand {
    /// Whether its expiry time, if any, is one `DateTime<Utc>` can hold.
    pub open spec fn valid(&self) -> bool {
        valid_ttl(self.ttl)
    }
}

/// What a decoded request is.
pub enum CommandSpec {
    Get(Seq<char>),
    SetCommand(SetSpec),
    Echo(Seq<char>),
    Ping,
    Info(Option<Seq<InfoSelection>>),
}

impl View for CommandType {
    type V = CommandSpec;

    open spec fn view(&self) -> CommandSpec {
        match self {
            CommandType::Get(g) => CommandSpec::Get(g.key@),
            CommandType::SetCommand(s) => CommandSpec::SetCommand(s@),
            CommandType::Echo(e) => CommandSpec::Echo(e@),
            CommandType::Ping => CommandSpec::Ping,
            CommandType::Info(i) => CommandSpec::Info(
                match i.section {
                    Some(v) => Some(v@),
                    None => None,
                },
            ),
        }
    }
}

/// What a decoding result is.
pub open spec fn result_view(r: Result<CommandType, DecodeError>) -> Result<
    CommandSpec,
    DecodeError,
> {
    match r {
        Ok(c) => Ok(c@),
        Err(e) => Err(e),
    }
}

/// The words of a request.
pub open spec fn words(v: Seq<String>) -> Seq<Seq<char>> {
    v.map_values(|s: String| s@)
}

/// The options of a `SET` read so far.
pub struct SetOptions {
    pub ttl: Option<Ttl>,
    pub flag: Option<SetFlag>,
    pub get: bool,
}

/// How reading the options of a `SET` ends: with the options read; with
/// a refusal; by reaching an option that lacks its number or has one that
/// does not read or is out of range; or with a relative expiry whose time
/// `DateTime<Utc>` cannot hold.
pub enum ScanSpec {
    Done(SetOptions),
    Rejected,
    Malformed,
    ClockOutOfRange,
}

/// Reads the options of a `SET` from `opts[i..]`, left to right, given
/// what was read before them and the current time `now`.
pub open spec fn scan_options(opts: Seq<Seq<char>>, i: int, st: SetOptions, now: Timestamp) -> ScanSpec
    decreases opts.len() - i,
{
    if i < 0 || i >= opts.len() {
        ScanSpec::Done(st)
    } else {
        let o = lowercase(opts[i]);
        if o == "nx"@ {
            if st.flag is None && !st.get && st.ttl is None {
                scan_options(
                    opts,
                    i + 1,
                    SetOptions { ttl: st.ttl, flag: Some(SetFlag::Nx), get: st.get },
                    now,
                )
            } else {
                ScanSpec::Rejected
            }
        } else if o == "xx"@ {
            if st.flag is None && !st.get && st.ttl is None {
                scan_options(
                    opts,
                    i + 1,
                    SetOptions { ttl: st.ttl, flag: Some(SetFlag::Xx), get: st.get },
                    now,
                )
            } else {
                ScanSpec::Rejected
            }
        } else if o == "get"@ {
            if st.ttl is None {
                scan_options(opts, i + 1, SetOptions { ttl: st.ttl, flag: st.flag, get: true }, now)
            } else {
                ScanSpec::Rejected
            }
        } else if o == "ex"@ {
            if i + 1 >= opts.len() {
                ScanSpec::Malformed
            } else {
                match parse_i64_spec(opts[i + 1]) {
                    None => ScanSpec::Malformed,
                    Some(n) => {
                        let delta = match try_seconds_millis(n as int) {
                            Some(d) => d,
                            None => 0,
                        };
                        match checked_add_spec(now, delta as int) {
                            None => ScanSpec::ClockOutOfRange,
                            Some(t) => scan_options(
                                opts,
                                i + 2,
                                SetOptions { ttl: Some(Ttl::Ex(t)), flag: st.flag, get: st.get },
                                now,
                            ),
                        }
                    },
                }
            }
        } else if o == "px"@ {
            if i + 1 >= opts.len() {
                ScanSpec::Malformed
            } else {
                match parse_i64_spec(opts[i + 1]) {
                    None => ScanSpec::Malformed,
                    Some(n) => {
                        let delta = match try_milliseconds_millis(n as int) {
                            Some(d) => d,
                            None => 0,
                        };
                        match checked_add_spec(now, delta as int) {
                            None => ScanSpec::ClockOutOfRange,
                            Some(t) => scan_options(
                                opts,
                                i + 2,
                                SetOptions { ttl: Some(Ttl::Px(t)), flag: st.flag, get: st.get },
                                now,
                            ),
                        }
                    },
                }
            }
        } else if o == "exat"@ {
            if i + 1 >= opts.len() {
                ScanSpec::Malformed
            } else {
                match parse_i64_spec(opts[i + 1]) {
                    None => ScanSpec::Malformed,
                    Some(n) => if !(i64::MIN <= n * 1000 <= i64::MAX) {
                        ScanSpec::Malformed
                    } else {
                        match from_timestamp_millis_spec(n * 1000) {
                            None => ScanSpec::Malformed,
                            Some(t) => scan_options(
                                opts,
                                i + 2,
                                SetOptions { ttl: Some(Ttl::Exat(t)), flag: st.flag, get: st.get },
                                now,
                            ),
                        }
                    },
                }
            }
        } else if o == "pxat"@ {
            if i + 1 >= opts.len() {
                ScanSpec::Malformed
            } else {
                match parse_i64_spec(opts[i + 1]) {
                    None => ScanSpec::Malformed,
                    Some(n) => match from_timestamp_millis_spec(n as int) {
                        None => ScanSpec::Malformed,
                        Some(t) => scan_options(
                            opts,
                            i + 2,
                            SetOptions { ttl: Some(Ttl::Pxat(t)), flag: st.flag, get: st.get },
                            now,
                        ),
                    },
                }
            }
        } else if o == "keepttl"@ {
            scan_options(opts, i + 1, st, now)
        } else {
            ScanSpec::Rejected
        }
    }
}

/// Whether reading the options of a `SET` from `opts[i..]`, the clock
/// aside, never reaches an option that lacks its number or has one that
/// does not read or is out of range. Only the flag, the `GET` option and
/// whether an expiry was given matter for that.
pub open spec fn options_well_formed(
    opts: Seq<Seq<char>>,
    i: int,
    flag: Option<SetFlag>,
    get: bool,
    has_ttl: bool,
) -> bool
    decreases opts.len() - i,
{
    if i < 0 || i >= opts.len() {
        true
    } else {
        let o = lowercase(opts[i]);
        if o == "nx"@ {
            flag is None && !get && !has_ttl ==> options_well_formed(
                opts,
                i + 1,
                Some(SetFlag::Nx),
                get,
                has_ttl,
            )
        } else if o == "xx"@ {
            flag is None && !get && !has_ttl ==> options_well_formed(
                opts,
                i + 1,
                Some(SetFlag::Xx),
                get,
                has_ttl,
            )
        } else if o == "get"@ {
            !has_ttl ==> options_well_formed(opts, i + 1, flag, true, has_ttl)
        } else if o == "ex"@ || o == "px"@ {
            &&& i + 1 < opts.len()
            &&& parse_i64_spec(opts[i + 1]) is Some
            &&& options_well_formed(opts, i + 2, flag, get, true)
        } else if o == "exat"@ {
            &&& i + 1 < opts.len()
            &&& parse_i64_spec(opts[i + 1]) matches Some(n) && i64::MIN <= n * 1000 <= i64::MAX
                && from_timestamp_millis_spec(n * 1000) is Some
            &&& options_well_formed(opts, i + 2, flag, get, true)
        } else if o == "pxat"@ {
            &&& i + 1 < opts.len()
            &&& parse_i64_spec(opts[i + 1]) matches Some(n) && from_timestamp_millis_spec(n as int) is Some
            &&& options_well_formed(opts, i + 2, flag, get, true)
        } else if o == "keepttl"@ {
            options_well_formed(opts, i + 1, flag, get, has_ttl)
        } else {
            true
        }
    }
}

/// The requests that can be decoded without aborting, whatever the time:
/// at least one word, and for `SET`, options that are well formed.
pub open spec fn decode_well_formed(input: Seq<Seq<char>>) -> bool {
    &&& input.len() >= 1
    &&& (input[0] == "set"@ && input.len() >= 3) ==> options_well_formed(
        input,
        3,
        None,
        false,
        false,
    )
}

/// How decoding a request at time `now` ends: with a command or an error,
/// by aborting on a malformed `SET` option, or by aborting on a relative
/// expiry that `DateTime<Utc>` cannot hold.
pub enum DecodeSpec {
    Done(Result<CommandSpec, DecodeError>),
    Malformed,
    ClockOutOfRange,
}

/// The section that an `INFO` argument names.
pub open spec fn info_selection(s: Seq<char>) -> InfoSelection {
    if lowercase(s) == "replication"@ {
        InfoSelection::Replication
    } else {
        InfoSelection::Unimplimented
    }
}

/// Decoding a non-empty request at time `now`. The command word is
/// matched as written; the options and sections of `SET` and `INFO`
/// whatever their case. `INFO` reads every word, the command word too.
pub open spec fn decode_spec(input: Seq<Seq<char>>, now: Timestamp) -> DecodeSpec {
    let cmd = input[0];
    if cmd == "get"@ {
        DecodeSpec::Done(
            if input.len() == 2 {
                Ok(CommandSpec::Get(input[1]))
            } else {
                Err(DecodeError::InvalidCommand)
            },
        )
    } else if cmd == "set"@ {
        if input.len() < 3 {
            DecodeSpec::Done(Err(DecodeError::InvalidOption))
        } else {
            match scan_options(input, 3, SetOptions { ttl: None, flag: None, get: false }, now) {
                ScanSpec::Done(o) => DecodeSpec::Done(
                    Ok(
                        CommandSpec::SetCommand(
                            SetSpec {
                                key: input[1],
                                value: input[2],
                                ttl: o.ttl,
                                flag: o.flag,
                                get: o.get,
                            },
                        ),
                    ),
                ),
                ScanSpec::Rejected => DecodeSpec::Done(Err(DecodeError::InvalidOption)),
                ScanSpec::Malformed => DecodeSpec::Malformed,
                ScanSpec::ClockOutOfRange => DecodeSpec::ClockOutOfRange,
            }
        }
    } else if cmd == "echo"@ {
        DecodeSpec::Done(
            Ok(
                CommandSpec::Echo(
                    if input.len() > 1 {
                        input[1]
                    } else {
                        Seq::empty()
                    },
                ),
            ),
        )
    } else if cmd == "info"@ {
        if input.len() < 2 {
            DecodeSpec::Done(Ok(CommandSpec::Info(None)))
        } else {
            DecodeSpec::Done(
                Ok(CommandSpec::Info(Some(input.map_values(|s: Seq<char>| info_selection(s))))),
            )
        }
    } else if cmd == "ping"@ {
        DecodeSpec::Done(Ok(CommandSpec::Ping))
    } else {
        DecodeSpec::Done(Err(DecodeError::Unimplimented))
    }
}

/// How decoding a request ends.
pub enum DecodeOutcome {
    Decoded(Result<CommandType, DecodeError>),
    Malformed,
    ClockOutOfRange,
}

impl View for DecodeOutcome {
    type V = DecodeSpec;

    open spec fn view(&self) -> DecodeSpec {
        match self {
            DecodeOutcome::Decoded(r) => DecodeSpec::Done(result_view(*r)),
            DecodeOutcome::Malformed => DecodeSpec::Malformed,
            DecodeOutcome::ClockOutOfRange => DecodeSpec::ClockOutOfRange,
        }
    }
}

/// Whether a decoding result holds only expiry times that `DateTime<Utc>`
/// can hold.
pub open spec fn decoded_valid(r: Result<CommandType, DecodeError>) -> bool {
    match r {
        Ok(CommandType::SetCommand(s)) => s.valid(),
        _ => true,
    }
}

/// Reads the options of `SET key value [options]`, at time `now`.
fn decode_set(input: &Vec<String>, now: Timestamp) -> (r: DecodeOutcome)
    requires
        input@.len() >= 3,
        valid_time(now),
    ensures
        r@ == (match scan_options(
            words(input@),
            3,
            SetOptions { ttl: None, flag: None, get: false },
            now,
        ) {
            ScanSpec::Done(o) => DecodeSpec::Done(
                Ok(
                    CommandSpec::SetCommand(
                        SetSpec {
                            key: words(input@)[1],
                            value: words(input@)[2],
                            ttl: o.ttl,
                            flag: o.flag,
                            get: o.get,
                        },
                    ),
                ),
            ),
            ScanSpec::Rejected => DecodeSpec::Done(Err(DecodeError::InvalidOption)),
            ScanSpec::Malformed => DecodeSpec::Malformed,
            ScanSpec::ClockOutOfRange => DecodeSpec::ClockOutOfRange,
        }),
        r matches DecodeOutcome::Decoded(d) ==> decoded_valid(d),
{
    let ghost ws = words(input@);
    let ghost init = SetOptions { ttl: None, flag: None, get: false };
    let n = input.len();
    let mut i: usize = 3;
    let mut ttl: Option<Ttl> = None;
    let mut flag: Option<SetFlag> = None;
    let mut get = false;
    while i < n
        invariant
            3 <= i <= n,
            n == input@.len(),
            ws == words(input@),
            init == (SetOptions { ttl: None, flag: None, get: false }),
            valid_time(now),
            valid_ttl(ttl),
            scan_options(ws, 3, init, now) == scan_options(
                ws,
                i as int,
                SetOptions { ttl, flag, get },
                now,
            ),
        decreases n - i,
    {
        let opt = input[i].as_str();
        proof {
            assert(ws[i as int] == input@[i as int]@);
        }
        if lower_is(opt, "nx") {
            if flag.is_none() && !get && ttl.is_none() {
                flag = Some(SetFlag::Nx);
                i = i + 1;
            } else {
                return DecodeOutcome::Decoded(Err(DecodeError::InvalidOption));
            }
        } else if lower_is(opt, "xx") {
            if flag.is_none() && !get && ttl.is_none() {
                flag = Some(SetFlag::Xx);
                i = i + 1;
            } else {
                return DecodeOutcome::Decoded(Err(DecodeError::InvalidOption));
            }
        } else if lower_is(opt, "get") {
            if ttl.is_none() {
                get = true;
                i = i + 1;
            } else {
                return DecodeOutcome::Decoded(Err(DecodeError::InvalidOption));
            }
        } else if lower_is(opt, "ex") || lower_is(opt, "px") {
            let seconds = lower_is(opt, "ex");
            if i + 1 >= n {
                return DecodeOutcome::Malformed;
            }
            proof {
                assert(ws[i + 1] == input@[i + 1]@);
            }
            let amount = match parse_i64(input[i + 1].as_str()) {
                Some(v) => v,
                None => {
                    return DecodeOutcome::Malformed;
                },
            };
            let span = if seconds {
                time_delta_try_seconds(amount)
            } else {
                time_delta_try_milliseconds(amount)
            };
            let delta: i64 = match span {
                Some(d) => d,
                None => 0,
            };
            match datetime_checked_add_signed(now, delta) {
                Some(t) => {
                    ttl = if seconds {
                        Some(Ttl::Ex(t))
                    } else {
                        Some(Ttl::Px(t))
                    };
                    i = i + 2;
                },
                None => {
                    return DecodeOutcome::ClockOutOfRange;
                },
            }
        } else if lower_is(opt, "exat") || lower_is(opt, "pxat") {
            let seconds = lower_is(opt, "exat");
            if i + 1 >= n {
                return DecodeOutcome::Malformed;
            }
            proof {
                assert(ws[i + 1] == input@[i + 1]@);
            }
            let amount = match parse_i64(input[i + 1].as_str()) {
                Some(v) => v,
                None => {
                    return DecodeOutcome::Malformed;
                },
            };
            let millis = if seconds {
                match amount.checked_mul(1000) {
                    Some(m) => m,
                    None => {
                        return DecodeOutcome::Malformed;
                    },
                }
            } else {
                amount
            };
            match datetime_from_timestamp_millis(millis) {
                Some(t) => {
                    ttl = if seconds {
                        Some(Ttl::Exat(t))
                    } else {
                        Some(Ttl::Pxat(t))
                    };
                    i = i + 2;
                },
                None => {
                    return DecodeOutcome::Malformed;
                },
            }
        } else if lower_is(opt, "keepttl") {
            i = i + 1;
        } else {
            return DecodeOutcome::Decoded(Err(DecodeError::InvalidOption));
        }
    }
    let key = input[1].clone();
    let value = input[2].clone();
    proof {
        assert(ws[1] == input@[1]@);
        assert(ws[2] == input@[2]@);
    }
    DecodeOutcome::Decoded(Ok(CommandType::SetCommand(SetCommand { key, value, ttl, flag, get })))
}

/// The sections that `INFO` asks for: one for each word of the request.
fn info_sections(input: &Vec<String>) -> (r: Vec<InfoSelection>)
    ensures
        r@ == words(input@).map_values(|s: Seq<char>| info_selection(s)),
{
    let mut out: Vec<InfoSelection> = Vec::new();
    let mut i: usize = 0;
    while i < input.len()
        invariant
            0 <= i <= input@.len(),
            out@ == words(input@).take(i as int).map_values(|s: Seq<char>| info_selection(s)),
        decreases input@.len() - i,
    {
        let sel = if lower_is(input[i].as_str(), "replication") {
            InfoSelection::Replication
        } else {
            InfoSelection::Unimplimented
        };
        out.push(sel);
        proof {
            assert(words(input@)[i as int] == input@[i as int]@);
            assert(words(input@).take(i + 1).map_values(|s: Seq<char>| info_selection(s))
                =~= words(input@).take(i as int).map_values(|s: Seq<char>| info_selection(s)).push(
                sel,
            ));
        }
        i = i + 1;
    }
    proof {
        assert(words(input@).take(input@.len() as int) =~= words(input@));
    }
    out
}

/// Decodes a non-empty request at time `now`.
pub fn decode_at(input: &Vec<String>, now: Timestamp) -> (r: DecodeOutcome)
    requires
        input@.len() >= 1,
        valid_time(now),
    ensures
        r@ == decode_spec(words(input@), now),
        r matches DecodeOutcome::Decoded(d) ==> decoded_valid(d),
{
    let ghost ws = words(input@);
    let command = input[0].as_str();
    proof {
        assert(ws[0] == input@[0]@);
    }
    if same_text(command, "get") {
        if input.len() == 2 {
            proof {
                assert(ws[1] == input@[1]@);
            }
            DecodeOutcome::Decoded(Ok(CommandType::Get(Get { key: input[1].clone() })))
        } else {
            DecodeOutcome::Decoded(Err(DecodeError::InvalidCommand))
        }
    } else if same_text(command, "set") {
        if input.len() < 3 {
            DecodeOutcome::Decoded(Err(DecodeError::InvalidOption))
        } else {
            decode_set(input, now)
        }
    } else if same_text(command, "echo") {
        if input.len() > 1 {
            proof {
                assert(ws[1] == input@[1]@);
            }
            DecodeOutcome::Decoded(Ok(CommandType::Echo(input[1].clone())))
        } else {
            DecodeOutcome::Decoded(Ok(CommandType::Echo(String::new())))
        }
    } else if same_text(command, "info") {
        if input.len() < 2 {
            DecodeOutcome::Decoded(Ok(CommandType::Info(Info { section: None })))
        } else {
            let sections = info_sections(input);
            DecodeOutcome::Decoded(Ok(CommandType::Info(Info { section: Some(sections) })))
        }
    } else if same_text(command, "ping") {
        DecodeOutcome::Decoded(Ok(CommandType::Ping))
    } else {
        DecodeOutcome::Decoded(Err(DecodeError::Unimplimented))
    }
}

/// Options that are well formed apart from the clock never end malformed,
/// whatever the time.
pub proof fn lemma_well_formed_not_malformed(
    opts: Seq<Seq<char>>,
    i: int,
    st: SetOptions,
    now: Timestamp,
)
    requires
        options_well_formed(opts, i, st.flag, st.get, st.ttl is Some),
    ensures
        !(scan_options(opts, i, st, now) is Malformed),
    decreases opts.len() - i,
{
    if 0 <= i < opts.len() {
        let o = lowercase(opts[i]);
        if o == "nx"@ {
            if st.flag is None && !st.get && st.ttl is None {
                lemma_well_formed_not_malformed(
                    opts,
                    i + 1,
                    SetOptions { ttl: st.ttl, flag: Some(SetFlag::Nx), get: st.get },
                    now,
                );
            }
        } else if o == "xx"@ {
            if st.flag is None && !st.get && st.ttl is None {
                lemma_well_formed_not_malformed(
                    opts,
                    i + 1,
                    SetOptions { ttl: st.ttl, flag: Some(SetFlag::Xx), get: st.get },
                    now,
                );
            }
        } else if o == "get"@ {
            if st.ttl is None {
                lemma_well_formed_not_malformed(
                    opts,
                    i + 1,
                    SetOptions { ttl: st.ttl, flag: st.flag, get: true },
                    now,
                );
            }
        } else if o == "ex"@ {
            let n = parse_i64_spec(opts[i + 1]).unwrap();
            let delta = match try_seconds_millis(n as int) {
                Some(d) => d,
                None => 0,
            };
            if let Some(t) = checked_add_spec(now, delta as int) {
                lemma_well_formed_not_malformed(
                    opts,
                    i + 2,
                    SetOptions { ttl: Some(Ttl::Ex(t)), flag: st.flag, get: st.get },
                    now,
                );
            }
        } else if o == "px"@ {
            let n = parse_i64_spec(opts[i + 1]).unwrap();
            let delta = match try_milliseconds_millis(n as int) {
                Some(d) => d,
                None => 0,
            };
            if let Some(t) = checked_add_spec(now, delta as int) {
                lemma_well_formed_not_malformed(
                    opts,
                    i + 2,
                    SetOptions { ttl: Some(Ttl::Px(t)), flag: st.flag, get: st.get },
                    now,
                );
            }
        } else if o == "exat"@ {
            let n = parse_i64_spec(opts[i + 1]).unwrap();
            let t = from_timestamp_millis_spec(n * 1000).unwrap();
            lemma_well_formed_not_malformed(
                opts,
                i + 2,
                SetOptions { ttl: Some(Ttl::Exat(t)), flag: st.flag, get: st.get },
                now,
            );
        } else if o == "pxat"@ {
            let n = parse_i64_spec(opts[i + 1]).unwrap();
            let t = from_timestamp_millis_spec(n as int).unwrap();
            lemma_well_formed_not_malformed(
                opts,
                i + 2,
                SetOptions { ttl: Some(Ttl::Pxat(t)), flag: st.flag, get: st.get },
                now,
            );
        } else if o == "keepttl"@ {
            lemma_well_formed_not_malformed(opts, i + 1, st, now);
        }
    }
}

/// What decoding gives at time `now`: the decoded result, or, where a
/// relative expiry lands on a time that `DateTime<Utc>` cannot hold,
/// `InvalidOption`.
pub open spec fn decode_result_at(
    input: Seq<Seq<char>>,
    now: Timestamp,
    r: Result<CommandSpec, DecodeError>,
) -> bool {
    match decode_spec(input, now) {
        DecodeSpec::Done(d) => r == d,
        DecodeSpec::ClockOutOfRange => r == Err::<CommandSpec, DecodeError>(
            DecodeError::InvalidOption,
        ),
        DecodeSpec::Malformed => false,
    }
}

/// Decodes a request, reading the clock for relative expiry times.
///
/// The result is the decoding at some time, not before the Unix epoch,
/// that `DateTime<Utc>` can hold;
/// where `EX` or `PX` would expire at a time it cannot hold, the request
/// is refused with `InvalidOption`.
pub fn decode(input: Vec<String>) -> (r: Result<CommandType, DecodeError>)
    requires
        decode_well_formed(words(input@)),
    ensures
        exists|now: Timestamp|
            valid_time(now) && now.secs >= 0 && #[trigger] decode_result_at(
                words(input@),
                now,
                result_view(r),
            ),
        decoded_valid(r),
{
    let now = utc_now();
    proof {
        let ws = words(input@);
        if ws[0] == "set"@ && ws.len() >= 3 {
            lemma_well_formed_not_malformed(
                ws,
                3,
                SetOptions { ttl: None, flag: None, get: false },
                now,
            );
        }
    }
    let r = match decode_at(&input, now) {
        DecodeOutcome::Decoded(d) => d,
        DecodeOutcome::Malformed => Err(DecodeError::InvalidOption),
        DecodeOutcome::ClockOutOfRange => Err(DecodeError::InvalidOption),
    };
    proof {
        assert(decode_result_at(words(input@), now, result_view(r)));
    }
    r
}

} // verus!
