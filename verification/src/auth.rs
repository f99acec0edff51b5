//! Credentials attached to a frame.
use vstd::prelude::*;
use vstd::utf8::encode_utf8;
use crate::wire::{copy_string, string_of, lemma_string_roundtrip};

verus! {

/// Username and password sent with a request to authenticate it.
#[derive(Debug, Clone, PartialEq)]
pub struct UsernamePassword {
    username: String,
    password: String,
}

/// The contents of a `UsernamePassword`.
pub struct CredentialsModel {
    pub username: Seq<char>,
    pub password: Seq<char>,
}

impl View for UsernamePassword {
    type V = CredentialsModel;

    closed spec fn view(&self) -> CredentialsModel {
        CredentialsModel { username: self.username@, password: self.password@ }
    }
}

/// On the wire: the length of the UTF-8 username in one byte, the username, then the same
/// for the password.
pub open spec fn credentials_encode(c: CredentialsModel) -> Seq<u8> {
    let u = encode_utf8(c.username);
    let p = encode_utf8(c.password);
    seq![u.len() as u8] + u + seq![p.len() as u8] + p
}

/// Credentials that fit the wire: both parts take at most 255 bytes of UTF-8.
pub open spec fn credentials_wf(c: CredentialsModel) -> bool {
    encode_utf8(c.username).len() <= 255 && encode_utf8(c.password).len() <= 255
}

/// The credentials at the start of `bytes` and the number of bytes they take, if the
/// lengths fit the input and both parts are UTF-8.
pub open spec fn credentials_decode(bytes: Seq<u8>) -> Option<(CredentialsModel, nat)> {
    if bytes.len() < 1 {
        None
    } else {
        let ul = bytes[0] as nat;
        if 1 + ul + 1 > bytes.len() {
            None
        } else {
            let pl = bytes[(1 + ul) as int] as nat;
            let end = 1 + ul + 1 + pl;
            if end > bytes.len() {
                None
            } else {
                match (
                    string_of(bytes.subrange(1, (1 + ul) as int)),
                    string_of(bytes.subrange((2 + ul) as int, end as int)),
                ) {
                    (Some(u), Some(p)) => Some((CredentialsModel { username: u, password: p }, end)),
                    _ => None,
                }
            }
        }
    }
}

/// Reading written credentials gives them back, whatever follows them.
pub proof fn lemma_credentials_roundtrip(c: CredentialsModel, rest: Seq<u8>)
    requires
        credentials_wf(c),
    ensures
        credentials_decode(credentials_encode(c) + rest) == Some(
            (c, credentials_encode(c).len()),
        ),
{
    let u = encode_utf8(c.username);
    let p = encode_utf8(c.password);
    let b = credentials_encode(c) + rest;
    lemma_string_roundtrip(c.username);
    lemma_string_roundtrip(c.password);
    assert(b[0] == u.len() as u8);
    let ul = u.len() as int;
    let pl = p.len() as int;
    assert(b[1 + ul] == p.len() as u8);
    assert(b.subrange(1, 1 + ul) =~= u);
    assert(b.subrange(2 + ul, 2 + ul + pl) =~= p);
}

impl UsernamePassword {
    /// Creates credentials from a username and a password.
    pub fn new(username: String, password: String) -> (c: UsernamePassword)
        ensures
            c@.username == username@,
            c@.password == password@,
    {
        UsernamePassword { username, password }
    }

    /// The username.
    pub fn username(&self) -> (u: &str)
        ensures
            u@ == self@.username,
    {
        self.username.as_str()
    }

    /// The password.
    pub fn password(&self) -> (p: &str)
        ensures
            p@ == self@.password,
    {
        self.password.as_str()
    }

    /// Reads credentials at the start of `bytes`: the credentials and the number of bytes
    /// they take.
    pub fn decode(bytes: &[u8]) -> (res: Option<(UsernamePassword, usize)>)
        ensures
            credentials_decode(bytes@) matches Some((c, n)) ==> (res matches Some((x, m)) && x@
                == c && m == n),
            credentials_decode(bytes@) is None ==> res is None,
    {
        if bytes.len() < 1 {
            return None;
        }
        let ul = bytes[0] as usize;
        if bytes.len() - 1 < ul + 1 {
            return None;
        }
        let pl = bytes[1 + ul] as usize;
        if bytes.len() - (2 + ul) < pl {
            return None;
        }
        let end = 2 + ul + pl;
        let username = match copy_string(bytes, 1, 1 + ul) {
            Some(s) => s,
            None => {
                return None;
            },
        };
        let password = match copy_string(bytes, 2 + ul, end) {
            Some(s) => s,
            None => {
                return None;
            },
        };
        Some((UsernamePassword { username, password }, end))
    }

    /// Appends the credentials to `out`; refuses a part longer than 255 bytes.
    pub fn encode(&self, out: &mut Vec<u8>) -> (ok: bool)
        ensures
            ok == credentials_wf(self@),
            ok ==> final(out)@ == old(out)@ + credentials_encode(self@),
            !ok ==> final(out)@ == old(out)@,
    {
        let u = self.username.as_str().as_bytes();
        let p = self.password.as_str().as_bytes();
        if u.len() > 255 || p.len() > 255 {
            return false;
        }
        out.push(u.len() as u8);
        out.extend_from_slice(u);
        out.push(p.len() as u8);
        out.extend_from_slice(p);
        assert(final(out)@ =~= old(out)@ + credentials_encode(self@));
        true
    }
}

/// The bytes of credentials: the length of the username, its UTF-8 bytes, the length of the
/// password, its UTF-8 bytes; each length is one byte.
pub proof fn lemma_credentials_layout(c: CredentialsModel)
    requires
        credentials_wf(c),
    ensures
        ({
            let e = credentials_encode(c);
            let u = encode_utf8(c.username);
            let p = encode_utf8(c.password);
            &&& e.len() == 2 + u.len() + p.len()
            &&& e[0] == u.len()
            &&& e.subrange(1, 1 + u.len() as int) == u
            &&& e[1 + u.len() as int] == p.len()
            &&& e.skip(2 + u.len() as int) == p
        }),
{
    let e = credentials_encode(c);
    let u = encode_utf8(c.username);
    let p = encode_utf8(c.password);
    assert(e.subrange(1, 1 + u.len() as int) =~= u);
    assert(e.skip(2 + u.len() as int) =~= p);
}

} // verus!
