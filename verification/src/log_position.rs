//! `LogPosition`: positions in the stream of all events.
use vstd::prelude::*;
use crate::errors::ErrorKind;

verus! {

/// Global unique position in the EventStore, used when reading all events.
/// Range: `-1..i64::MAX`
#[derive(Debug, Copy, Clone, PartialEq, Eq, PartialOrd, Ord, Structural)]
pub enum LogPosition {
    /// The first event ever
    First,
    /// Exact position
    Exact(u64),
    /// The last event written to the database at the moment
    Last,
}

/// The log position of the wire value `val`: 0 is the first, -1 the last, other negative
/// values are refused.
pub open spec fn log_position_from_i64(val: i64) -> Result<LogPosition, ErrorKind> {
    if val == 0 {
        Ok(LogPosition::First)
    } else if val == -1 {
        Ok(LogPosition::Last)
    } else if val > 0 {
        Ok(LogPosition::Exact(val as u64))
    } else {
        Err(ErrorKind::UnderflowLogPosition(val))
    }
}

/// The wire value of a log position.
pub open spec fn log_position_to_i64(p: LogPosition) -> i64 {
    match p {
        LogPosition::First => 0,
        LogPosition::Exact(x) => x as i64,
        LogPosition::Last => -1i64,
    }
}

/// A log position that the wire can carry: an exact position is between 1 and `i64::MAX`.
pub open spec fn log_position_wf(p: LogPosition) -> bool {
    p matches LogPosition::Exact(x) ==> 0 < x <= i64::MAX
}

/// Reading the wire value of a valid log position gives it back.
pub proof fn lemma_log_position_roundtrip(p: LogPosition)
    requires
        log_position_wf(p),
    ensures
        log_position_from_i64(log_position_to_i64(p)) == Ok::<LogPosition, ErrorKind>(p),
{
}

impl LogPosition {
    /// Converts the wire value; values below -1 are refused.
    pub fn try_from(val: i64) -> (res: Result<LogPosition, ErrorKind>)
        ensures
            res == log_position_from_i64(val),
    {
        if val == 0 {
            Ok(LogPosition::First)
        } else if val == -1 {
            Ok(LogPosition::Last)
        } else if val > 0 {
            Ok(LogPosition::Exact(val as u64))
        } else {
            Err(ErrorKind::UnderflowLogPosition(val))
        }
    }

    /// Converts an unsigned position; values above `i64::MAX` are refused.
    pub fn try_from_u64(val: u64) -> (res: Result<LogPosition, ErrorKind>)
        ensures
            val == 0 ==> res == Ok::<LogPosition, ErrorKind>(LogPosition::First),
            0 < val <= i64::MAX ==> res == Ok::<LogPosition, ErrorKind>(LogPosition::Exact(val)),
            val > i64::MAX ==> res == Err::<LogPosition, ErrorKind>(ErrorKind::OverflowLogPosition(val)),
    {
        if val == 0 {
            Ok(LogPosition::First)
        } else if val <= 0x7fff_ffff_ffff_ffff {
            Ok(LogPosition::Exact(val))
        } else {
            Err(ErrorKind::OverflowLogPosition(val))
        }
    }

    /// The log position of the wire value, or `None` for a value below -1.
    pub fn from_i64_opt(val: i64) -> (res: Option<LogPosition>)
        ensures
            res == match log_position_from_i64(val) {
                Ok(p) => Some(p),
                Err(_) => None,
            },
    {
        match LogPosition::try_from(val) {
            Ok(p) => Some(p),
            Err(_) => None,
        }
    }

    /// The wire value: 0 for the first, -1 for the last position.
    pub fn to_i64(self) -> (v: i64)
        ensures
            v == log_position_to_i64(self),
    {
        match self {
            LogPosition::First => 0,
            LogPosition::Exact(x) => x as i64,
            LogPosition::Last => -1,
        }
    }
}

/// On the wire, the first position is 0, the last is -1, and an exact position is itself.
pub proof fn lemma_log_position_wire(p: LogPosition)
    ensures
        p is First ==> log_position_to_i64(p) == 0,
        p is Last ==> log_position_to_i64(p) == -1,
        p matches LogPosition::Exact(x) ==> (x <= i64::MAX ==> log_position_to_i64(p) == x),
{
}

} // verus!
