//! Frames of the protocol: reading them out of a byte buffer and writing them.
//!
//! A frame is a little-endian `u32` length, then the body of that length: the message's
//! discriminator byte, a flags byte, the 16 bytes of the correlation id, the credentials when
//! the flags say so, and the payload of the message.
use vstd::prelude::*;
use vstd::slice::slice_subrange;
use byteorder::{ByteOrder, LittleEndian};
use crate::errors::CodecError;
use crate::auth::{
    UsernamePassword, credentials_encode, credentials_decode, credentials_wf,
    lemma_credentials_roundtrip,
};
use crate::raw::{RawMessage, raw_decode, raw_encode, raw_wf, discriminator_of, lemma_raw_roundtrip};
use crate::package::{Package, PackageModel};

verus! {

/// No authentication information present
pub const FLAG_NONE: u8 = 0x00;

/// Package contains authentication
pub const FLAG_AUTHENTICATED: u8 = 0x01;

/// The smallest body: discriminator, flags and correlation id.
pub const HEADER_SIZE: usize = 18;

/// The value of four little-endian bytes.
pub open spec fn le_u32(b: Seq<u8>) -> nat {
    b[0] as nat + 256 * (b[1] as nat) + 65536 * (b[2] as nat) + 16777216 * (b[3] as nat)
}

/// The four little-endian bytes of `n`.
pub open spec fn le_u32_bytes(n: u32) -> Seq<u8> {
    seq![
        (n % 256) as u8,
        ((n / 256) % 256) as u8,
        ((n / 65536) % 256) as u8,
        (n / 16777216) as u8,
    ]
}

/// Reading the bytes of `n` gives `n` back.
pub proof fn lemma_le_u32_roundtrip(n: u32)
    ensures
        le_u32(le_u32_bytes(n)) == n,
        le_u32_bytes(n).len() == 4,
{
    let b = le_u32_bytes(n);
    assert(b[0] as nat == n % 256);
    assert(b[1] as nat == (n / 256) % 256);
    assert(b[2] as nat == (n / 65536) % 256);
    assert(b[3] as nat == n / 16777216);
    assert(n as nat == n % 256 + 256 * ((n / 256) % 256) + 65536 * ((n / 65536) % 256) + 16777216 * (n
        / 16777216)) by (nonlinear_arith);
}

/// Reads a little-endian `u32` with `byteorder::LittleEndian::read_u32`.
///
/// Claimed of that function: it reads the first four bytes as a little-endian number; it
/// panics on fewer bytes, which `requires` rules out.
#[verifier::external_body]
fn read_u32_le(buf: &[u8]) -> (n: u32)
    requires
        buf@.len() >= 4,
    ensures
        n == le_u32(buf@),
{
    LittleEndian::read_u32(buf)
}

/// The little-endian bytes of `n`, written with `byteorder::LittleEndian::write_u32`.
///
/// Claimed of that function: it writes the four little-endian bytes of `n` at the start of
/// the buffer.
#[verifier::external_body]
fn u32_le_bytes(n: u32) -> (b: [u8; 4])
    ensures
        b@ == le_u32_bytes(n),
{
    let mut b = [0u8; 4];
    LittleEndian::write_u32(&mut b, n);
    b
}

/// The body of a frame: discriminator, flags, correlation id, credentials and payload.
pub open spec fn body_encode(p: PackageModel) -> Seq<u8> {
    let flags: u8 = if p.authentication is Some {
        FLAG_AUTHENTICATED
    } else {
        FLAG_NONE
    };
    let auth = match p.authentication {
        Some(c) => credentials_encode(c),
        None => Seq::empty(),
    };
    seq![discriminator_of(p.message), flags] + p.correlation_id + auth + raw_encode(p.message)
}

/// The frame of a package: the length of its body, then the body.
pub open spec fn frame_encode(p: PackageModel) -> Seq<u8> {
    let body = body_encode(p);
    le_u32_bytes(body.len() as u32) + body
}

/// A package that can be framed and read back: a 16-byte correlation id, credentials and
/// message that fit the wire, and a body whose length fits the `u32` prefix.
pub open spec fn package_wf(p: PackageModel) -> bool {
    &&& p.correlation_id.len() == 16
    &&& raw_wf(p.message)
    &&& (p.authentication matches Some(c) ==> credentials_wf(c))
    &&& body_encode(p).len() <= u32::MAX
}

/// Why a package cannot be framed, if it cannot.
pub open spec fn encode_error(p: PackageModel) -> Option<CodecError> {
    if p.authentication matches Some(c) && !credentials_wf(c) {
        Some(CodecError::CredentialsTooLong)
    } else if body_encode(p).len() > u32::MAX {
        Some(CodecError::FrameTooLarge)
    } else {
        None
    }
}

/// The package that the body of a frame holds, or why it holds none.
pub open spec fn body_decode(body: Seq<u8>) -> Result<PackageModel, CodecError> {
    let d = body[0];
    let flags = body[1];
    let cid = body.subrange(2, 18);
    if flags != FLAG_NONE && flags != FLAG_AUTHENTICATED {
        Err(CodecError::InvalidFlags(flags))
    } else if flags == FLAG_AUTHENTICATED {
        match credentials_decode(body.skip(18)) {
            None => Err(CodecError::InvalidCredentials),
            Some((c, n)) => match raw_decode(d, body.skip(18 + n as int)) {
                Some(m) => Ok(PackageModel { authentication: Some(c), correlation_id: cid, message: m }),
                None => Err(CodecError::InvalidMessage(d)),
            },
        }
    } else {
        match raw_decode(d, body.skip(18)) {
            Some(m) => Ok(PackageModel { authentication: None, correlation_id: cid, message: m }),
            None => Err(CodecError::InvalidMessage(d)),
        }
    }
}

/// Reads the frame at the start of `buf`: `Ok(None)` while the buffer holds less than a whole
/// frame, the package and the number of bytes of the frame once it holds one, and an error
/// when the frame is malformed.
pub open spec fn frame_decode(buf: Seq<u8>) -> Result<Option<(PackageModel, nat)>, CodecError> {
    if buf.len() < 4 + HEADER_SIZE {
        Ok(None)
    } else {
        let len = le_u32(buf);
        if len < HEADER_SIZE {
            Err(CodecError::LengthTooSmall(len as u32))
        } else if buf.len() < len + 4 {
            Ok(None)
        } else {
            match body_decode(buf.subrange(4, (4 + len) as int)) {
                Ok(p) => Ok(Some((p, len + 4))),
                Err(e) => Err(e),
            }
        }
    }
}

/// The body of a framed package reads back as the package.
proof fn lemma_body_roundtrip(p: PackageModel)
    requires
        package_wf(p),
    ensures
        body_decode(body_encode(p)) == Ok::<PackageModel, CodecError>(p),
{
    let body = body_encode(p);
    let payload = raw_encode(p.message);
    lemma_raw_roundtrip(p.message);
    assert(body.subrange(2, 18) =~= p.correlation_id);
    match p.authentication {
        Some(c) => {
            assert(body.skip(18) =~= credentials_encode(c) + payload);
            lemma_credentials_roundtrip(c, payload);
            assert(body.skip(18 + credentials_encode(c).len() as int) =~= payload);
        },
        None => {
            assert(body.skip(18) =~= payload);
        },
    }
}

/// Reading a frame gives back the package framed, and the frame's length, whatever bytes
/// follow the frame in the buffer.
pub proof fn lemma_frame_roundtrip(p: PackageModel, extra: Seq<u8>)
    requires
        package_wf(p),
    ensures
        frame_decode(frame_encode(p) + extra) == Ok::<Option<(PackageModel, nat)>, CodecError>(
            Some((p, frame_encode(p).len())),
        ),
{
    let body = body_encode(p);
    let len = body.len() as u32;
    let buf = frame_encode(p) + extra;
    lemma_le_u32_roundtrip(len);
    assert(le_u32(buf) == le_u32(le_u32_bytes(len)));
    assert(buf.subrange(4, 4 + len) =~= body);
    lemma_body_roundtrip(p);
}

/// A buffer that holds only part of a frame reads as incomplete: no package, no error.
pub proof fn lemma_frame_prefix_incomplete(p: PackageModel, k: nat)
    requires
        package_wf(p),
        k < frame_encode(p).len(),
    ensures
        frame_decode(frame_encode(p).take(k as int)) == Ok::<Option<(PackageModel, nat)>, CodecError>(
            None,
        ),
{
    let body = body_encode(p);
    let len = body.len() as u32;
    let buf = frame_encode(p).take(k as int);
    lemma_le_u32_roundtrip(len);
    if buf.len() >= 4 + HEADER_SIZE {
        assert(le_u32(buf) == le_u32(le_u32_bytes(len)));
    }
}

/// Bytes after a complete frame change nothing of what is read: the same package, the same
/// length, or the same error.
pub proof fn lemma_frame_decode_ignores_trailing(buf: Seq<u8>, extra: Seq<u8>)
    requires
        frame_decode(buf) is Err || frame_decode(buf) matches Ok(Some(_)),
    ensures
        frame_decode(buf + extra) == frame_decode(buf),
{
    let all = buf + extra;
    assert(le_u32(all) == le_u32(buf));
    if buf.len() >= 4 + HEADER_SIZE && le_u32(buf) >= HEADER_SIZE && buf.len() >= le_u32(buf) + 4 {
        assert(all.subrange(4, (4 + le_u32(buf)) as int) =~= buf.subrange(4, (4 + le_u32(buf)) as int));
    }
}

/// Stateless simple PackageCodec
pub struct PackageCodec;

impl PackageCodec {
    /// Reads the frame at the start of `buf`; see `frame_decode`.
    pub fn decode_inner(&self, buf: &[u8]) -> (res: Result<Option<(Package, usize)>, CodecError>)
        ensures
            frame_decode(buf@) matches Ok(Some((p, n))) ==> (res matches Ok(Some((x, m))) && x@
                == p && m == n),
            frame_decode(buf@) matches Ok(None) ==> res matches Ok(None),
            frame_decode(buf@) matches Err(e) ==> res == Err::<Option<(Package, usize)>, CodecError>(e),
    {
        if buf.len() < 4 + HEADER_SIZE {
            return Ok(None);
        }
        let len = read_u32_le(slice_subrange(buf, 0, 4));
        assert(le_u32(buf@.subrange(0, 4)) == le_u32(buf@));
        if (len as usize) < HEADER_SIZE {
            return Err(CodecError::LengthTooSmall(len));
        }
        if ((buf.len() - 4) as u64) < len as u64 {
            return Ok(None);
        }
        let end = 4 + len as usize;
        match self.decode_body(slice_subrange(buf, 4, end)) {
            Ok(p) => Ok(Some((p, end))),
            Err(e) => Err(e),
        }
    }

    /// Reads the package that the body of a frame holds.
    fn decode_body(&self, body: &[u8]) -> (res: Result<Package, CodecError>)
        requires
            body@.len() >= HEADER_SIZE,
        ensures
            body_decode(body@) matches Ok(p) ==> (res matches Ok(x) && x@ == p),
            body_decode(body@) matches Err(e) ==> res == Err::<Package, CodecError>(e),
    {
        let (d, correlation_id, authentication, pos) = match self.decode_header(body) {
            Ok(x) => x,
            Err(e) => {
                return Err(e);
            },
        };
        match RawMessage::decode(d, slice_subrange(body, pos, body.len())) {
            Ok(message) => {
                assert(body@.subrange(pos as int, body@.len() as int) =~= body@.skip(pos as int));
                Ok(Package { authentication, correlation_id, message })
            },
            Err(e) => {
                assert(body@.subrange(pos as int, body@.len() as int) =~= body@.skip(pos as int));
                Err(e)
            },
        }
    }

    /// Reads the discriminator, the correlation id and the credentials of a body, and the
    /// position where the payload starts.
    fn decode_header(&self, body: &[u8]) -> (res: Result<
        (u8, [u8; 16], Option<UsernamePassword>, usize),
        CodecError,
    >)
        requires
            body@.len() >= HEADER_SIZE,
        ensures
            match res {
                Ok((d, cid, auth, pos)) => {
                    &&& d == body@[0]
                    &&& cid@ == body@.subrange(2, 18)
                    &&& (body@[1] == FLAG_NONE || body@[1] == FLAG_AUTHENTICATED)
                    &&& body@[1] == FLAG_NONE ==> auth is None && pos == 18
                    &&& body@[1] == FLAG_AUTHENTICATED ==> (credentials_decode(body@.skip(18)) matches Some((c, n))
                        && auth matches Some(a) && a@ == c && pos == 18 + n)
                    &&& pos <= body@.len()
                },
                Err(e) => {
                    ||| (body@[1] != FLAG_NONE && body@[1] != FLAG_AUTHENTICATED && e
                        == CodecError::InvalidFlags(body@[1]))
                    ||| (body@[1] == FLAG_AUTHENTICATED && credentials_decode(body@.skip(18)) is None
                        && e == CodecError::InvalidCredentials)
                },
            },
    {
        let d = body[0];
        let flags = body[1];
        if flags != FLAG_NONE && flags != FLAG_AUTHENTICATED {
            return Err(CodecError::InvalidFlags(flags));
        }
        let mut cid = [0u8; 16];
        let mut i: usize = 0;
        while i < 16
            invariant
                i <= 16,
                body@.len() >= HEADER_SIZE,
                cid@.len() == 16,
                forall|k: int| 0 <= k < i ==> cid@[k] == body@[2 + k],
            decreases 16 - i,
        {
            cid[i] = body[2 + i];
            i = i + 1;
        }
        assert(cid@ =~= body@.subrange(2, 18));
        if flags == FLAG_AUTHENTICATED {
            let rest = slice_subrange(body, 18, body.len());
            assert(rest@ =~= body@.skip(18));
            match UsernamePassword::decode(rest) {
                Some((c, n)) => Ok((d, cid, Some(c), 18 + n)),
                None => Err(CodecError::InvalidCredentials),
            }
        } else {
            Ok((d, cid, None, 18))
        }
    }

    /// Appends the frame of a message to `out`; refuses credentials longer than 255 bytes
    /// and bodies too long for the length prefix, leaving `out` as it was.
    pub fn encode_parts(
        &self,
        out: &mut Vec<u8>,
        correlation_id: &[u8; 16],
        authentication: Option<&UsernamePassword>,
        raw: &RawMessage,
    ) -> (res: Result<(), CodecError>)
        ensures
            ({
                let p = PackageModel {
                    authentication: match authentication {
                        Some(c) => Some(c@),
                        None => None,
                    },
                    correlation_id: correlation_id@,
                    message: raw@,
                };
                &&& encode_error(p) matches Some(e) ==> res == Err::<(), CodecError>(e)
                    && final(out)@ == old(out)@
                &&& encode_error(p) is None ==> res is Ok && final(out)@ == old(out)@
                    + frame_encode(p)
            }),
    {
        let ghost p = PackageModel {
            authentication: match authentication {
                Some(c) => Some(c@),
                None => None,
            },
            correlation_id: correlation_id@,
            message: raw@,
        };
        let mut body: Vec<u8> = Vec::new();
        body.push(raw.discriminator());
        match authentication {
            Some(_) => body.push(FLAG_AUTHENTICATED),
            None => body.push(FLAG_NONE),
        }
        body.extend_from_slice(correlation_id.as_slice());
        match authentication {
            Some(c) => {
                if !c.encode(&mut body) {
                    return Err(CodecError::CredentialsTooLong);
                }
            },
            None => {},
        }
        let payload = raw.encode();
        body.extend_from_slice(payload.as_slice());
        assert(body@ =~= body_encode(p));
        if body.len() > 0xffff_ffff {
            return Err(CodecError::FrameTooLarge);
        }
        let prefix = u32_le_bytes(body.len() as u32);
        out.extend_from_slice(prefix.as_slice());
        out.extend_from_slice(body.as_slice());
        assert(final(out)@ =~= old(out)@ + frame_encode(p));
        Ok(())
    }

    /// Appends the frame of a package to `out`; see `encode_parts`.
    pub fn encode(&self, pkg: &Package, out: &mut Vec<u8>) -> (res: Result<(), CodecError>)
        ensures
            encode_error(pkg@) matches Some(e) ==> res == Err::<(), CodecError>(e) && final(out)@
                == old(out)@,
            encode_error(pkg@) is None ==> res is Ok && final(out)@ == old(out)@ + frame_encode(
                pkg@,
            ),
    {
        let auth = match &pkg.authentication {
            Some(c) => Some(c),
            None => None,
        };
        self.encode_parts(out, &pkg.correlation_id, auth, &pkg.message)
    }
}

/// The bytes of a frame: the little-endian length of the rest, the message's command byte,
/// the flags (1 with credentials, 0 without), the 16 bytes of the correlation id, the
/// credentials when there are any, then the payload.
pub proof fn lemma_frame_layout(p: PackageModel)
    requires
        package_wf(p),
    ensures
        ({
            let f = frame_encode(p);
            let auth = match p.authentication {
                Some(c) => credentials_encode(c),
                None => Seq::<u8>::empty(),
            };
            &&& f.len() == 4 + 18 + auth.len() + raw_encode(p.message).len()
            &&& le_u32(f) == f.len() - 4
            &&& f[4] == discriminator_of(p.message)
            &&& f[5] == (if p.authentication is Some {
                1u8
            } else {
                0u8
            })
            &&& f.subrange(6, 22) == p.correlation_id
            &&& f.skip(22) == auth + raw_encode(p.message)
        }),
{
    let body = body_encode(p);
    let f = frame_encode(p);
    lemma_le_u32_roundtrip(body.len() as u32);
    assert(le_u32(f) == le_u32(le_u32_bytes(body.len() as u32)));
    assert(f.subrange(6, 22) =~= p.correlation_id);
    let auth = match p.authentication {
        Some(c) => credentials_encode(c),
        None => Seq::<u8>::empty(),
    };
    assert(f.skip(22) =~= auth + raw_encode(p.message));
}

} // verus!
