//! The decisions of the command line client: what its arguments mean and which requests they
//! make. Reading the arguments, talking to the server and printing stay with the program.
use vstd::prelude::*;
use vstd::string::StrSliceExecFns;
use crate::stream_version::StreamVersion;
use crate::expected_version::ExpectedVersion;
use crate::event_number::EventNumber;
use crate::log_position::{LogPosition, log_position_from_i64};
use crate::read_direction::ReadDirection;
use crate::content_type::ContentType;
use crate::auth::UsernamePassword;
use crate::package::Package;
use crate::raw::RawMessageModel;
use crate::builder::{
    Builder, WriteEventsBuilder, DeleteStreamBuilder, is_v4_uuid,
    DeleteStreamBuilderModel, new_event_of, NewEventBuilderModel, read_event_of,
    ReadEventBuilderModel, read_stream_events_of, ReadStreamEventsBuilderModel,
    read_all_events_of, ReadAllEventsBuilderModel,
};
use std::str::FromStr;

verus! {

/// The value of a string of decimal digits.
pub open spec fn decimal_value(s: Seq<char>) -> nat
    decreases s.len(),
{
    if s.len() == 0 {
        0
    } else {
        (decimal_value(s.drop_last()) * 10 + (s.last() as int - '0' as int)) as nat
    }
}

/// A non-empty string of decimal digits.
pub open spec fn is_decimal(s: Seq<char>) -> bool {
    s.len() > 0 && forall|i: int| 0 <= i < s.len() ==> '0' <= #[trigger] s[i] <= '9'
}

/// The digits of a number written with an optional leading `+`.
pub open spec fn unsigned_digits(s: Seq<char>) -> Seq<char> {
    if s.len() > 0 && s[0] == '+' {
        s.drop_first()
    } else {
        s
    }
}

/// The number that `s` writes: an optional `+` and decimal digits, at most `max`.
pub open spec fn parse_unsigned(s: Seq<char>, max: nat) -> Option<nat> {
    let d = unsigned_digits(s);
    if is_decimal(d) && decimal_value(d) <= max {
        Some(decimal_value(d))
    } else {
        None
    }
}

/// The number that `s` writes: an optional sign and decimal digits, within `i64`.
pub open spec fn parse_i64_spec(s: Seq<char>) -> Option<i64> {
    if s.len() > 0 && s[0] == '-' {
        let d = s.drop_first();
        if is_decimal(d) && decimal_value(d) <= 0x8000_0000_0000_0000 {
            Some((0 - decimal_value(d)) as i64)
        } else {
            None
        }
    } else {
        match parse_unsigned(s, 0x7fff_ffff_ffff_ffff) {
            Some(n) => Some(n as i64),
            None => None,
        }
    }
}

/// `<u8 as FromStr>::from_str`: an optional `+` and decimal digits whose value fits a `u8`.
#[verifier::external_body]
fn parse_u8(s: &str) -> (r: Option<u8>)
    ensures
        r matches Some(n) ==> parse_unsigned(s@, 0xff) == Some(n as nat),
        r is None ==> parse_unsigned(s@, 0xff) is None,
{
    u8::from_str(s).ok()
}

/// `<u32 as FromStr>::from_str`: an optional `+` and decimal digits whose value fits a `u32`.
#[verifier::external_body]
fn parse_u32(s: &str) -> (r: Option<u32>)
    ensures
        r matches Some(n) ==> parse_unsigned(s@, 0xffff_ffff) == Some(n as nat),
        r is None ==> parse_unsigned(s@, 0xffff_ffff) is None,
{
    u32::from_str(s).ok()
}

/// `<i64 as FromStr>::from_str`: an optional sign and decimal digits whose value fits an `i64`.
#[verifier::external_body]
fn parse_i64(s: &str) -> (r: Option<i64>)
    ensures
        r == parse_i64_spec(s@),
{
    i64::from_str(s).ok()
}

/// The index of the first `c` in `s` at or after `from`, or the length of `s` when there is
/// none.
pub open spec fn index_of_from(s: Seq<char>, from: int, c: char) -> int
    decreases s.len() - from,
{
    if from >= s.len() {
        s.len() as int
    } else if s[from] == c {
        from
    } else {
        index_of_from(s, from + 1, c)
    }
}

/// Finds the first `c` in `s` at or after `from`.
fn find_char(s: &str, from: usize, c: char) -> (i: usize)
    requires
        from <= s@.len(),
    ensures
        i == index_of_from(s@, from as int, c),
        from <= i <= s@.len(),
{
    let n = s.unicode_len();
    let mut i = from;
    while i < n && s.get_char(i) != c
        invariant
            from <= i <= n,
            n == s@.len(),
            index_of_from(s@, from as int, c) == index_of_from(s@, i as int, c),
        decreases n - i,
    {
        i = i + 1;
    }
    i
}

/// Whether two strings hold the same characters.
fn same_str(a: &str, b: &str) -> (r: bool)
    ensures
        r == (a@ == b@),
{
    let n = a.unicode_len();
    if n != b.unicode_len() {
        return false;
    }
    let mut i: usize = 0;
    while i < n
        invariant
            i <= n,
            n == a@.len(),
            n == b@.len(),
            a@.take(i as int) == b@.take(i as int),
        decreases n - i,
    {
        if a.get_char(i) != b.get_char(i) {
            return false;
        }
        assert(a@.take(i + 1) =~= a@.take(i as int).push(a@[i as int]));
        assert(b@.take(i + 1) =~= b@.take(i as int).push(b@[i as int]));
        i = i + 1;
    }
    assert(a@ =~= a@.take(n as int));
    assert(b@ =~= b@.take(n as int));
    true
}

/// The stream version that an argument names: a number up to `i32::MAX`.
pub open spec fn stream_version_arg(s: Seq<char>) -> Option<StreamVersion> {
    match parse_unsigned(s, 0xffff_ffff) {
        Some(n) => if n <= 0x7fff_ffff {
            Some(StreamVersion::from_value(n as u32))
        } else {
            None
        },
        None => None,
    }
}

fn parse_stream_version(s: &str) -> (r: Option<StreamVersion>)
    ensures
        r == stream_version_arg(s@),
{
    match parse_u32(s) {
        Some(n) => match StreamVersion::try_from_u32(n) {
            Ok(v) => {
                proof {
                    crate::stream_version::lemma_value_from_value(v);
                }
                Some(v)
            },
            Err(_) => None,
        },
        None => None,
    }
}

/// The expected version an argument names: `any`, `created` (no stream yet) or a version
/// number up to `i32::MAX`; anything else names none.
pub open spec fn expected_version_arg(s: Seq<char>) -> Option<ExpectedVersion> {
    if s == "any"@ {
        Some(ExpectedVersion::Any)
    } else if s == "created"@ {
        Some(ExpectedVersion::NoStream)
    } else {
        match stream_version_arg(s) {
            Some(v) => Some(ExpectedVersion::Exact(v)),
            None => None,
        }
    }
}

/// The expected version that an argument names.
pub fn parse_expected_version(s: &str) -> (r: Option<ExpectedVersion>)
    ensures
        r == expected_version_arg(s@),
{
    if same_str(s, "any") {
        Some(ExpectedVersion::Any)
    } else if same_str(s, "created") {
        Some(ExpectedVersion::NoStream)
    } else {
        match parse_stream_version(s) {
            Some(v) => Some(ExpectedVersion::Exact(v)),
            None => None,
        }
    }
}

/// Where a read starts.
#[derive(Debug, Clone, Copy, PartialEq, Eq)]
pub enum Position {
    /// The first event
    First,
    /// An exact event number of a stream
    Exact(StreamVersion),
    /// A commit and a prepare position in the stream of all events
    Log(LogPosition, LogPosition),
    /// The last event
    Last,
}

/// The position an argument names: `first`, `last`, a commit and a prepare position
/// separated by a comma (what follows a second comma is left out), or an event number up to
/// `i32::MAX`.
pub open spec fn position_arg(s: Seq<char>) -> Option<Position> {
    if s == "first"@ {
        Some(Position::First)
    } else if s == "last"@ {
        Some(Position::Last)
    } else {
        let k = index_of_from(s, 0, ',');
        if k < s.len() {
            let j = index_of_from(s, k + 1, ',');
            match (parse_i64_spec(s.subrange(0, k)), parse_i64_spec(s.subrange(k + 1, j))) {
                (Some(x), Some(y)) => match (log_position_from_i64(x), log_position_from_i64(y)) {
                    (Ok(c), Ok(p)) => Some(Position::Log(c, p)),
                    _ => None,
                },
                _ => None,
            }
        } else {
            match stream_version_arg(s) {
                Some(v) => Some(Position::Exact(v)),
                None => None,
            }
        }
    }
}

impl Position {
    /// The position that an argument names.
    pub fn parse(s: &str) -> (r: Option<Position>)
        ensures
            r == position_arg(s@),
    {
        if same_str(s, "first") {
            return Some(Position::First);
        }
        if same_str(s, "last") {
            return Some(Position::Last);
        }
        let k = find_char(s, 0, ',');
        if k < s.unicode_len() {
            let j = find_char(s, k + 1, ',');
            let a = parse_i64(s.substring_char(0, k));
            let b = parse_i64(s.substring_char(k + 1, j));
            match (a, b) {
                (Some(x), Some(y)) => match (LogPosition::try_from(x), LogPosition::try_from(y)) {
                    (Ok(c), Ok(p)) => Some(Position::Log(c, p)),
                    _ => None,
                },
                _ => None,
            }
        } else {
            match parse_stream_version(s) {
                Some(v) => Some(Position::Exact(v)),
                None => None,
            }
        }
    }

    /// The event number of a position in a stream; a pair of log positions is none.
    pub fn into_event_number(self) -> (n: Option<EventNumber>)
        ensures
            n == position_event_number(self),
    {
        match self {
            Position::First => Some(EventNumber::First),
            Position::Exact(x) => Some(EventNumber::Exact(x)),
            Position::Last => Some(EventNumber::Last),
            Position::Log(_, _) => None,
        }
    }

    /// The commit and prepare positions of a position in the stream of all events; an exact
    /// event number is none.
    pub fn into_log_position(self) -> (p: Option<(LogPosition, LogPosition)>)
        ensures
            p == position_log_positions(self),
    {
        match self {
            Position::Log(a, b) => Some((a, b)),
            Position::First => Some((LogPosition::First, LogPosition::First)),
            Position::Last => Some((LogPosition::Last, LogPosition::Last)),
            Position::Exact(_) => None,
        }
    }
}

/// The event number of a position in a stream.
pub open spec fn position_event_number(p: Position) -> Option<EventNumber> {
    match p {
        Position::First => Some(EventNumber::First),
        Position::Exact(x) => Some(EventNumber::Exact(x)),
        Position::Last => Some(EventNumber::Last),
        Position::Log(_, _) => None,
    }
}

/// The commit and prepare positions of a position in the stream of all events.
pub open spec fn position_log_positions(p: Position) -> Option<(LogPosition, LogPosition)> {
    match p {
        Position::Log(a, b) => Some((a, b)),
        Position::First => Some((LogPosition::First, LogPosition::First)),
        Position::Last => Some((LogPosition::Last, LogPosition::Last)),
        Position::Exact(_) => None,
    }
}

/// How the events read are printed.
#[derive(Debug, Clone, Copy, PartialEq, Eq)]
pub enum OutputMode {
    /// The structure as debug output
    Debug,
    /// Data and metadata as JSON, on one line
    JsonOneline,
    /// Data and metadata as hexadecimal digits
    Hex,
}

/// The output mode an argument names: `debug`, `json_oneline` or `hex`.
pub open spec fn output_mode_arg(s: Seq<char>) -> Option<OutputMode> {
    if s == "debug"@ {
        Some(OutputMode::Debug)
    } else if s == "json_oneline"@ {
        Some(OutputMode::JsonOneline)
    } else if s == "hex"@ {
        Some(OutputMode::Hex)
    } else {
        None
    }
}

impl OutputMode {
    /// The output mode that an argument names.
    pub fn parse(s: &str) -> (r: Option<OutputMode>)
        ensures
            r == output_mode_arg(s@),
    {
        if same_str(s, "debug") {
            Some(OutputMode::Debug)
        } else if same_str(s, "json_oneline") {
            Some(OutputMode::JsonOneline)
        } else if same_str(s, "hex") {
            Some(OutputMode::Hex)
        } else {
            None
        }
    }
}

/// How a read goes: forwards up to the latest event, or backwards, from a position and for at
/// most a number of events.
#[derive(Debug, Clone, Copy, PartialEq, Eq)]
pub enum ReadMode {
    /// Read forwards once
    ForwardOnce { position: Position, count: u8 },
    /// Read backwards
    Backward { position: Position, count: u8 },
}

/// The read that the arguments name: the count is `all` (ten events) or a number, one by
/// default; the position is `first` by default; the mode is `forward-once` by default or
/// `backward` (`forward-forever` is not supported). `None` when an argument names nothing.
pub open spec fn read_mode_arg(count: Option<Seq<char>>, position: Option<Seq<char>>, mode: Option<Seq<char>>) -> Option<ReadMode> {
    let c: Option<Option<u8>> = match count {
        None => Some(Some(1u8)),
        Some(s) => if s == "all"@ {
            Some(None)
        } else {
            match parse_unsigned(s, 0xff) {
                Some(n) => Some(Some(n as u8)),
                None => None,
            }
        },
    };
    let p = position_arg(
        match position {
            Some(s) => s,
            None => "first"@,
        },
    );
    match (c, p) {
        (Some(c), Some(p)) => {
            let n = match c {
                Some(n) => n,
                None => 10u8,
            };
            match mode {
                None => Some(ReadMode::ForwardOnce { position: p, count: n }),
                Some(m) => if m == "forward-once"@ {
                    Some(ReadMode::ForwardOnce { position: p, count: n })
                } else if m == "backward"@ {
                    Some(ReadMode::Backward { position: p, count: n })
                } else {
                    None
                },
            }
        },
        _ => None,
    }
}

/// The read that the arguments name.
pub fn read_mode(count: Option<&str>, position: Option<&str>, mode: Option<&str>) -> (r: Option<ReadMode>)
    ensures
        r == read_mode_arg(
            match count {
                Some(s) => Some(s@),
                None => None,
            },
            match position {
                Some(s) => Some(s@),
                None => None,
            },
            match mode {
                Some(s) => Some(s@),
                None => None,
            },
        ),
{
    let c: Option<Option<u8>> = match count {
        None => Some(Some(1u8)),
        Some(s) => if same_str(s, "all") {
            Some(None)
        } else {
            match parse_u8(s) {
                Some(n) => Some(Some(n)),
                None => None,
            }
        },
    };
    let p = match position {
        Some(s) => Position::parse(s),
        None => Position::parse("first"),
    };
    match (c, p) {
        (Some(c), Some(p)) => {
            let n = match c {
                Some(n) => n,
                None => 10u8,
            };
            match mode {
                None => Some(ReadMode::ForwardOnce { position: p, count: n }),
                Some(m) => if same_str(m, "forward-once") {
                    Some(ReadMode::ForwardOnce { position: p, count: n })
                } else if same_str(m, "backward") {
                    Some(ReadMode::Backward { position: p, count: n })
                } else {
                    None
                },
            }
        },
        _ => None,
    }
}

/// The message that a read requests: one event when the count is one, else the stream of all
/// events (`$all`) or the events of the stream, in the mode's direction; `None` when the
/// position does not fit the kind of read.
pub open spec fn read_request_message(mode: ReadMode, stream_id: Seq<char>) -> Option<RawMessageModel> {
    let (dir, position, count) = match mode {
        ReadMode::ForwardOnce { position, count } => (ReadDirection::Forward, position, count),
        ReadMode::Backward { position, count } => (ReadDirection::Backward, position, count),
    };
    if count == 1 {
        match position_event_number(position) {
            Some(n) => Some(
                RawMessageModel::ReadEvent(
                    read_event_of(
                        ReadEventBuilderModel {
                            event_stream_id: Some(stream_id),
                            event_number: Some(n),
                            resolve_link_tos: Some(true),
                            require_master: Some(false),
                        },
                    ),
                ),
            ),
            None => None,
        }
    } else if stream_id == "$all"@ {
        match position_log_positions(position) {
            Some((c, p)) => Some(
                RawMessageModel::ReadAllEvents(
                    dir,
                    read_all_events_of(
                        ReadAllEventsBuilderModel {
                            direction: Some(dir),
                            commit_position: Some(c),
                            prepare_position: Some(p),
                            max_count: Some(count),
                            resolve_link_tos: None,
                            require_master: None,
                        },
                    ),
                ),
            ),
            None => None,
        }
    } else {
        match position_event_number(position) {
            Some(n) => Some(
                RawMessageModel::ReadStreamEvents(
                    dir,
                    read_stream_events_of(
                        ReadStreamEventsBuilderModel {
                            direction: Some(dir),
                            event_stream_id: Some(stream_id),
                            from_event_number: Some(n),
                            max_count: Some(count),
                            resolve_link_tos: None,
                            require_master: None,
                        },
                    ),
                ),
            ),
            None => None,
        }
    }
}

/// The number of events a read asks for.
pub open spec fn read_mode_count(mode: ReadMode) -> u8 {
    match mode {
        ReadMode::ForwardOnce { count, .. } => count,
        ReadMode::Backward { count, .. } => count,
    }
}

impl ReadMode {
    /// The package that requests this read of the stream, with the given credentials; `None`
    /// when the position does not fit the kind of read. The stream id must not be empty and
    /// the count not zero.
    pub fn into_request(self, stream_id: &str, cred: Option<UsernamePassword>) -> (r: Option<Package>)
        requires
            stream_id@.len() > 0,
            read_mode_count(self) > 0,
        ensures
            read_request_message(self, stream_id@) is None ==> r is None,
            read_request_message(self, stream_id@) matches Some(m) ==> (r matches Some(p)
                && p.message@ == m && p.authentication == cred && is_v4_uuid(p.correlation_id@)),
    {
        let (dir, position, count) = match self {
            ReadMode::ForwardOnce { position, count } => (ReadDirection::Forward, position, count),
            ReadMode::Backward { position, count } => (ReadDirection::Backward, position, count),
        };
        if count == 1 {
            match position.into_event_number() {
                Some(n) => {
                    let mut b = Builder::read_event();
                    Some(
                        b.stream_id(stream_id).event_number(n).resolve_link_tos(true).require_master(
                            false,
                        ).build_package(cred, None),
                    )
                },
                None => None,
            }
        } else if same_str(stream_id, "$all") {
            match position.into_log_position() {
                Some((c, p)) => {
                    let mut b = Builder::read_all_events();
                    Some(b.direction(dir).positions(c, p).max_count(count).build_package(cred, None))
                },
                None => None,
            }
        } else {
            match position.into_event_number() {
                Some(n) => {
                    let mut b = Builder::read_stream_events();
                    Some(
                        b.direction(dir).stream_id(stream_id).from_event_number(n).max_count(
                            count,
                        ).build_package(cred, None),
                    )
                },
                None => None,
            }
        }
    }
}

/// The content type of the data and metadata of a written event: JSON when flagged, else
/// bytes.
pub open spec fn content_type_of(json: bool) -> ContentType {
    if json {
        ContentType::Json
    } else {
        ContentType::Bytes
    }
}

/// The builder of a write of one event: `None` when the expected version names none. The
/// event gets a random id.
pub fn prepare_write(
    stream_id: &str,
    expected_version: &str,
    event_type: &str,
    data: Vec<u8>,
    metadata: Option<Vec<u8>>,
    json: bool,
    require_master: bool,
) -> (r: Option<WriteEventsBuilder>)
    requires
        stream_id@.len() > 0,
    ensures
        expected_version_arg(expected_version@) is None ==> r is None,
        expected_version_arg(expected_version@) matches Some(v) ==> (r matches Some(b) && b@.event_stream_id
            == Some(stream_id@) && b@.expected_version == Some(v) && b@.require_master == Some(
            require_master,
        ) && b@.events.len() == 1 && is_v4_uuid(b@.events[0].event_id) && b@.events[0] == new_event_of(
            NewEventBuilderModel {
                parent: b@,
                event_id: None,
                event_type: Some(event_type@),
                data_content_type: Some(content_type_of(json)),
                metadata_content_type: match metadata {
                    Some(_) => Some(content_type_of(json)),
                    None => None,
                },
                data: Some(data@),
                metadata: match metadata {
                    Some(m) => Some(m@),
                    None => None,
                },
            },
            b@.events[0].event_id,
        )),
{
    let version = match parse_expected_version(expected_version) {
        Some(v) => v,
        None => return None,
    };
    let content_type = if json {
        ContentType::Json
    } else {
        ContentType::Bytes
    };
    let mut builder = Builder::write_events();
    builder.stream_id(stream_id).expected_version(version).require_master(require_master);
    let event = builder.new_event().data(data).data_content_type(content_type).event_type(event_type);
    let event = match metadata {
        Some(m) => event.metadata(m).metadata_content_type(content_type),
        None => event,
    };
    event.done();
    Some(builder)
}

/// The builder of a deletion: `None` when the expected version names none.
pub fn prepare_delete(stream_id: &str, expected_version: &str, hard_delete: bool, require_master: bool) -> (r: Option<DeleteStreamBuilder>)
    requires
        stream_id@.len() > 0,
    ensures
        expected_version_arg(expected_version@) is None ==> r is None,
        expected_version_arg(expected_version@) matches Some(v) ==> (r matches Some(b) && b@
            == (DeleteStreamBuilderModel {
            event_stream_id: Some(stream_id@),
            expected_version: Some(v),
            require_master: Some(require_master),
            hard_delete: Some(hard_delete),
        })),
{
    let version = match parse_expected_version(expected_version) {
        Some(v) => v,
        None => return None,
    };
    let mut builder = Builder::delete_stream();
    builder.stream_id(stream_id).expected_version(version).hard_delete(hard_delete).require_master(
        require_master,
    );
    Some(builder)
}

/// What a read requests: one event of the stream when the count is one; else, in the mode's
/// own direction (backwards for `Backward`, forwards for `ForwardOnce`), the stream of all
/// events for `$all` and the events of the stream otherwise, as many as the count. Links are
/// resolved and no master is required.
pub proof fn lemma_read_request_shape(mode: ReadMode, stream_id: Seq<char>)
    ensures
        read_request_message(mode, stream_id) matches Some(m) ==> {
            let count = read_mode_count(mode);
            let dir = if mode is Backward {
                ReadDirection::Backward
            } else {
                ReadDirection::Forward
            };
            &&& count == 1 ==> (m matches RawMessageModel::ReadEvent(r) && r.event_stream_id
                == stream_id && r.resolve_link_tos && !r.require_master)
            &&& (count != 1 && stream_id == "$all"@) ==> (m matches RawMessageModel::ReadAllEvents(
                d,
                r,
            ) && d == dir && r.max_count == count && r.resolve_link_tos && !r.require_master)
            &&& (count != 1 && stream_id != "$all"@) ==> (m matches RawMessageModel::ReadStreamEvents(
                d,
                r,
            ) && d == dir && r.event_stream_id == stream_id && r.max_count == count
                && r.resolve_link_tos && !r.require_master)
        },
{
}

/// What the arguments of a read name: `backward` reads backwards, no mode or `forward-once`
/// reads forwards; without a count one event is read, `all` reads ten.
pub proof fn lemma_read_mode_arguments(
    count: Option<Seq<char>>,
    position: Option<Seq<char>>,
    mode: Option<Seq<char>>,
)
    ensures
        read_mode_arg(count, position, mode) matches Some(r) ==> {
            &&& (mode == Some("backward"@)) <==> r is Backward
            &&& count is None ==> read_mode_count(r) == 1
            &&& count == Some("all"@) ==> read_mode_count(r) == 10
        },
        (mode is None || mode == Some("forward-once"@) || mode == Some("backward"@)) ==> (
        read_mode_arg(count, position, mode) is Some <==> read_mode_arg(count, position, None) is Some),
{
    reveal_strlit("backward");
    reveal_strlit("forward-once");
    assert("backward"@ != "forward-once"@) by {
        assert("backward"@[0] != "forward-once"@[0]);
    }
}

/// A position names the same place for a stream and for the stream of all events: `first` is
/// the first event and position, `last` the last ones; an event number is read from a stream
/// only, log positions from `$all` only.
pub proof fn lemma_positions_agree(p: Position)
    ensures
        p is First ==> position_event_number(p) == Some(EventNumber::First) && position_log_positions(p)
            == Some((LogPosition::First, LogPosition::First)),
        p is Last ==> position_event_number(p) == Some(EventNumber::Last) && position_log_positions(p)
            == Some((LogPosition::Last, LogPosition::Last)),
        p matches Position::Exact(v) ==> position_event_number(p) == Some(EventNumber::Exact(v))
            && position_log_positions(p) is None,
        p matches Position::Log(c, q) ==> position_event_number(p) is None && position_log_positions(p)
            == Some((c, q)),
{
}

/// The expected version an argument names: `any` is any version, `created` is no stream yet,
/// and a number is the version of that number.
pub proof fn lemma_expected_version_arguments(s: Seq<char>)
    ensures
        s == "any"@ ==> expected_version_arg(s) == Some(ExpectedVersion::Any),
        s == "created"@ ==> expected_version_arg(s) == Some(ExpectedVersion::NoStream),
        expected_version_arg(s) matches Some(ExpectedVersion::Exact(v)) ==> parse_unsigned(s, 0xffff_ffff)
            == Some(v.value() as nat),
{
    reveal_strlit("any");
    reveal_strlit("created");
    assert("any"@ != "created"@) by {
        assert("any"@.len() != "created"@.len());
    }
    if let Some(ExpectedVersion::Exact(v)) = expected_version_arg(s) {
        crate::stream_version::lemma_from_value_value(parse_unsigned(s, 0xffff_ffff)->0 as u32);
    }
}

} // verus!
