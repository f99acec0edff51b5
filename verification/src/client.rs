//! Framing of the multiplexed connection: packages are told apart by their correlation id.
use vstd::prelude::*;
use crate::errors::CodecError;
use crate::package::Package;
use crate::codec::{PackageCodec, frame_decode, frame_encode, encode_error};

verus! {

/// Splits the byte stream into packages keyed by their correlation id, and joins them back.
pub struct Separator;

impl Separator {
    /// Reads the frame at the start of `buf`, with the correlation id that keys it and the
    /// number of bytes it took.
    pub fn decode(&self, buf: &[u8]) -> (res: Result<Option<([u8; 16], Package, usize)>, CodecError>)
        ensures
            frame_decode(buf@) matches Ok(Some((p, n))) ==> (res matches Ok(Some((id, x, m)))
                && x@ == p && m == n && id == x.correlation_id),
            frame_decode(buf@) matches Ok(None) ==> res matches Ok(None),
            frame_decode(buf@) matches Err(e) ==> res == Err::<Option<([u8; 16], Package, usize)>, CodecError>(e),
    {
        match PackageCodec.decode_inner(buf) {
            Ok(Some((pkg, n))) => Ok(Some((pkg.correlation_id, pkg, n))),
            Ok(None) => Ok(None),
            Err(e) => Err(e),
        }
    }

    /// Appends the frame of a package to `out`; `id` is the package's own correlation id.
    pub fn encode(&self, id: [u8; 16], pkg: &Package, out: &mut Vec<u8>) -> (res: Result<(), CodecError>)
        requires
            id == pkg.correlation_id,
        ensures
            encode_error(pkg@) matches Some(e) ==> res == Err::<(), CodecError>(e) && final(out)@
                == old(out)@,
            encode_error(pkg@) is None ==> res is Ok && final(out)@ == old(out)@ + frame_encode(
                pkg@,
            ),
    {
        PackageCodec.encode(pkg, out)
    }

    /// The id that keys a request: its correlation id.
    pub fn next(&self, pkg: &Package) -> (id: [u8; 16])
        ensures
            id == pkg.correlation_id,
    {
        pkg.correlation_id
    }
}

} // verus!
