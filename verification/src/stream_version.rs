//! `StreamVersion`: the non-negative event numbers of a stream.
use vstd::prelude::*;
use crate::errors::ErrorKind;

verus! {

/// `StreamVersion` represents the valid values for a stream version which is the same as the
/// event number of the latest event. As such, values are non-negative integers up to
/// `i32::MAX`. Negative values of `i32` have special meaning in the protocol, and are
/// restricted from being used with this type.
#[derive(Debug, Clone, Copy, PartialEq, Eq, Structural)]
pub struct StreamVersion(u32);

/// The stream version of a wire value: a negative value is refused.
pub open spec fn stream_version_from_i32(ver: i32) -> Result<StreamVersion, ErrorKind> {
    if ver >= 0 {
        Ok(StreamVersion::from_value(ver as u32))
    } else {
        Err(ErrorKind::InvalidStreamVersion(ver))
    }
}

/// A stream version that the type admits: at most `i32::MAX`.
pub open spec fn stream_version_wf(v: StreamVersion) -> bool {
    v.value() <= 0x7fff_ffff
}

/// The value of `from_value(v)` is `v`.
pub broadcast proof fn lemma_from_value_value(v: u32)
    ensures
        #[trigger] StreamVersion::from_value(v).value() == v,
{
}

/// A stream version is `from_value` of its value.
pub broadcast proof fn lemma_value_from_value(sv: StreamVersion)
    ensures
        StreamVersion::from_value(#[trigger] sv.value()) == sv,
{
}

/// The facts that tie `from_value` and `value` together.
pub broadcast group group_stream_version {
    lemma_from_value_value,
    lemma_value_from_value,
}

impl StreamVersion {
    /// The number held.
    pub closed spec fn value(self) -> u32 {
        self.0
    }

    /// The stream version holding `v`.
    pub closed spec fn from_value(v: u32) -> StreamVersion {
        StreamVersion(v)
    }

    #[verifier::type_invariant]
    spec fn inv(self) -> bool {
        self.0 <= 0x7fff_ffff
    }

    /// Accepts a `u32` up to `i32::MAX`.
    pub fn try_from_u32(ver: u32) -> (res: Result<StreamVersion, ErrorKind>)
        ensures
            ver <= 0x7fff_ffff ==> (res matches Ok(v) && v.value() == ver),
            ver > 0x7fff_ffff ==> res == Err::<StreamVersion, ErrorKind>(
                ErrorKind::InvalidStreamVersion(ver as i32),
            ),
    {
        if ver <= 0x7fff_ffff {
            Ok(StreamVersion(ver))
        } else {
            Err(ErrorKind::InvalidStreamVersion(ver as i32))
        }
    }

    /// Accepts a non-negative `i32`.
    pub fn try_from(ver: i32) -> (res: Result<StreamVersion, ErrorKind>)
        ensures
            res == stream_version_from_i32(ver),
            ver >= 0 ==> (res matches Ok(v) && v.value() == ver),
            ver < 0 ==> res == Err::<StreamVersion, ErrorKind>(ErrorKind::InvalidStreamVersion(ver)),
    {
        if ver >= 0 {
            Ok(StreamVersion(ver as u32))
        } else {
            Err(ErrorKind::InvalidStreamVersion(ver))
        }
    }

    /// The version as an unsigned number.
    pub fn to_u32(self) -> (n: u32)
        ensures
            n == self.value(),
            n <= 0x7fff_ffff,
    {
        proof {
            use_type_invariant(self);
        }
        self.0
    }

    /// The version as the wire's signed number.
    pub fn to_i32(self) -> (n: i32)
        ensures
            n == self.value(),
            n >= 0,
    {
        proof {
            use_type_invariant(self);
        }
        self.0 as i32
    }
}

} // verus!
