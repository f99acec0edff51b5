//! Decoding of hex dumps of captured frames, one line at a time.
//!
//! Each line is stripped of "0x" prefixes, commas and whitespace, and what is left is read as
//! hex digits. Lines that end in a comma continue the record on the next line; the bytes of a
//! finished record are decoded as a frame.
use vstd::prelude::*;
use vstd::utf8::encode_utf8;
use vstd::string::StrSliceExecFns;
use hex::FromHex;
use crate::errors::CodecError;
use crate::package::{Package, PackageModel};
use crate::codec::{PackageCodec, frame_decode};
use crate::raw::events::{opt_bytes_view, opt_string_view};

verus! {

/// Whether `c` has Unicode's White_Space property (what `char::is_whitespace` and the `\s` of
/// `regex` test).
pub open spec fn is_white_space(c: char) -> bool {
    let n = c as u32;
    ||| 0x9 <= n <= 0xd
    ||| n == 0x20
    ||| n == 0x85
    ||| n == 0xa0
    ||| n == 0x1680
    ||| 0x2000 <= n <= 0x200a
    ||| n == 0x2028
    ||| n == 0x2029
    ||| n == 0x202f
    ||| n == 0x205f
    ||| n == 0x3000
}

/// `s` without its leading whitespace.
pub open spec fn trim_start(s: Seq<char>) -> Seq<char>
    decreases s.len(),
{
    if s.len() > 0 && is_white_space(s[0]) {
        trim_start(s.drop_first())
    } else {
        s
    }
}

/// `s` without its trailing whitespace.
pub open spec fn trim_end(s: Seq<char>) -> Seq<char>
    decreases s.len(),
{
    if s.len() > 0 && is_white_space(s.last()) {
        trim_end(s.drop_last())
    } else {
        s
    }
}

/// `s` without its leading and trailing whitespace.
pub open spec fn trimmed(s: Seq<char>) -> Seq<char> {
    trim_end(trim_start(s))
}

/// `str::trim`: the string without leading and trailing whitespace, as Unicode's White_Space
/// property defines it.
#[verifier::external_body]
fn trim(s: &str) -> (t: &str)
    ensures
        t@ == trimmed(s@),
{
    s.trim()
}

/// What `regex::Regex::new(pattern)` and then `replace_all(text, rep)` give: `None` when the
/// pattern does not compile.
pub uninterp spec fn regex_replace_all(pattern: Seq<char>, text: Seq<char>, rep: Seq<char>) -> Option<Seq<char>>;

/// What is stripped from a line before it is read as hex digits: "0x", commas and whitespace.
pub open spec fn strip_pattern() -> Seq<char> {
    "(0x)|,|\\s"@
}

/// `s` with every "0x", comma and whitespace character removed, matches taken from the left
/// and "0x" tried first: what replacing the matches of `strip_pattern()` by nothing gives.
pub open spec fn stripped(s: Seq<char>) -> Seq<char>
    decreases s.len(),
{
    if s.len() == 0 {
        s
    } else if s.len() >= 2 && s[0] == '0' && s[1] == 'x' {
        stripped(s.skip(2))
    } else if s[0] == ',' || is_white_space(s[0]) {
        stripped(s.drop_first())
    } else {
        seq![s[0]] + stripped(s.drop_first())
    }
}

/// `regex::Regex::new` followed by `Regex::replace_all`: the text with every match of the
/// pattern replaced, or `None` when the pattern does not compile. Claimed of it: the result
/// is a function of the three strings; for the pattern `strip_pattern()` (which compiles) and
/// an empty replacement it is `stripped(text)`, by the crate's leftmost-first matching and
/// its Unicode `\s`. Nothing more is stated for other patterns.
#[verifier::external_body]
fn replace_all(pattern: &str, text: &str, rep: &str) -> (r: Option<String>)
    ensures
        opt_string_view(r) == regex_replace_all(pattern@, text@, rep@),
        pattern@ == strip_pattern() && rep@.len() == 0 ==> opt_string_view(r) == Some(stripped(text@)),
{
    match regex::Regex::new(pattern) {
        Ok(re) => Some(re.replace_all(text, rep).into_owned()),
        Err(_) => None,
    }
}

/// The value of a hex digit, upper or lower case.
pub open spec fn hex_digit_value(c: u8) -> Option<u8> {
    if 0x30 <= c <= 0x39 {
        Some((c - 0x30) as u8)
    } else if 0x41 <= c <= 0x46 {
        Some((c - 0x41 + 10) as u8)
    } else if 0x61 <= c <= 0x66 {
        Some((c - 0x61 + 10) as u8)
    } else {
        None
    }
}

/// The bytes that a string of hex digits stands for, two digits a byte, high digit first; an
/// odd length or a character that is no hex digit gives `None`.
pub open spec fn hex_decoded(s: Seq<u8>) -> Option<Seq<u8>> {
    if s.len() % 2 == 0 && forall|i: int| 0 <= i < s.len() ==> (#[trigger] hex_digit_value(s[i])) is Some {
        Some(
            Seq::new(
                s.len() / 2,
                |k: int| (hex_digit_value(s[2 * k])->0 * 16 + hex_digit_value(s[2 * k + 1])->0) as u8,
            ),
        )
    } else {
        None
    }
}

/// `hex::FromHex::from_hex` for `Vec<u8>`: the UTF-8 bytes of `s` read as hex digits, or `None`
/// for an odd number of them or a character that is no hex digit.
#[verifier::external_body]
fn from_hex(s: &str) -> (r: Option<Vec<u8>>)
    ensures
        opt_bytes_view(r) == hex_decoded(encode_utf8(s@)),
{
    match Vec::<u8>::from_hex(s) {
        Ok(v) => Some(v),
        Err(_) => None,
    }
}

/// The bytes that a line of a hex dump holds, or `None` when they are not hex digits.
pub open spec fn line_bytes(line: Seq<char>) -> Option<Seq<u8>> {
    hex_decoded(encode_utf8(stripped(trimmed(line))))
}

/// Whether the record goes on past this line: the trimmed line ends in a comma.
pub open spec fn line_continues(line: Seq<char>) -> bool {
    trimmed(line).last() == ','
}

/// A line that the decoder takes: it is not blank, and its bytes are hex digits.
pub open spec fn line_ok(line: Seq<char>) -> bool {
    trimmed(line).len() > 0 && line_bytes(line) is Some
}

/// The outcome of decoding the bytes of one record of input.
#[derive(Debug)]
pub enum Decoding {
    /// The whole input was decoded into single package
    Full { bytes: usize, package: Package },
    /// There were unused bytes left undecoded
    Partial { unused_bytes: usize, package: Package },
    /// Not enough bytes
    Underflow,
    /// The bytes do not hold a valid frame
    Failure(CodecError),
}

/// The model of a `Decoding`: the package by its model.
pub enum DecodingModel {
    Full { bytes: nat, package: PackageModel },
    Partial { unused_bytes: nat, package: PackageModel },
    Underflow,
    Failure(CodecError),
}

impl View for Decoding {
    type V = DecodingModel;

    open spec fn view(&self) -> DecodingModel {
        match self {
            Decoding::Full { bytes, package } => DecodingModel::Full {
                bytes: *bytes as nat,
                package: package@,
            },
            Decoding::Partial { unused_bytes, package } => DecodingModel::Partial {
                unused_bytes: *unused_bytes as nat,
                package: package@,
            },
            Decoding::Underflow => DecodingModel::Underflow,
            Decoding::Failure(e) => DecodingModel::Failure(*e),
        }
    }
}

/// The decoding of the bytes of a record: a frame that takes all of them, a frame with bytes
/// left over, too few bytes for a frame, or an invalid frame.
pub open spec fn decoding_of(bytes: Seq<u8>) -> DecodingModel {
    match frame_decode(bytes) {
        Ok(Some((p, n))) => if n < bytes.len() {
            DecodingModel::Partial { unused_bytes: (bytes.len() - n) as nat, package: p }
        } else {
            DecodingModel::Full { bytes: bytes.len(), package: p }
        },
        Ok(None) => DecodingModel::Underflow,
        Err(e) => DecodingModel::Failure(e),
    }
}

/// Decodes the bytes of a record.
pub fn decode_record(bytes: &[u8]) -> (d: Decoding)
    ensures
        d@ == decoding_of(bytes@),
{
    match PackageCodec.decode_inner(bytes) {
        Ok(Some((package, used))) => {
            if used < bytes.len() {
                Decoding::Partial { unused_bytes: bytes.len() - used, package: package }
            } else {
                Decoding::Full { bytes: bytes.len(), package: package }
            }
        },
        Ok(None) => Decoding::Underflow,
        Err(e) => Decoding::Failure(e),
    }
}

/// The bytes of a line of a hex dump and whether the record goes on past it; `None` when the
/// decoder does not take the line (`line_ok`).
fn read_line(line: &str) -> (r: Option<(Vec<u8>, bool)>)
    ensures
        line_ok(line@) ==> (r matches Some((b, c)) && b@ == line_bytes(line@)->0 && c
            == line_continues(line@)),
        !line_ok(line@) ==> r is None,
{
    let t = trim(line);
    let n = t.unicode_len();
    if n == 0 {
        return None;
    }
    let continues = t.get_char(n - 1) == ',';
    proof {
        reveal_strlit("");
        assert(""@ =~= Seq::<char>::empty());
    }
    let digits = match replace_all("(0x)|,|\\s", t, "") {
        Some(s) => s,
        None => return None,
    };
    match from_hex(digits.as_str()) {
        Some(b) => Some((b, continues)),
        None => None,
    }
}

/// Collects the lines of a record of a hex dump and decodes it once it is complete.
pub struct HexDumpDecoder {
    combined: Vec<u8>,
}

impl View for HexDumpDecoder {
    type V = Seq<u8>;

    /// The bytes of the unfinished record.
    closed spec fn view(&self) -> Seq<u8> {
        self.combined@
    }
}

impl HexDumpDecoder {
    /// A decoder with no unfinished record.
    pub fn new() -> (d: HexDumpDecoder)
        ensures
            d@ == Seq::<u8>::empty(),
    {
        HexDumpDecoder { combined: Vec::new() }
    }

    /// Adds the bytes of a line to the record; when the line does not go on to the next one,
    /// the record is complete: its decoding is returned and a new record starts.
    fn add_line(&mut self, bytes: Vec<u8>, continues: bool) -> (d: Option<Decoding>)
        ensures
            continues ==> d is None && final(self)@ == old(self)@ + bytes@,
            !continues ==> (d matches Some(x) && x@ == decoding_of(old(self)@ + bytes@))
                && final(self)@ == Seq::<u8>::empty(),
    {
        let mut bytes = bytes;
        self.combined.append(&mut bytes);
        if continues {
            None
        } else {
            let d = decode_record(self.combined.as_slice());
            self.combined = Vec::new();
            Some(d)
        }
    }

    /// Adds the bytes of a line to the record. When the line does not end in a comma the record
    /// is complete: its decoding is returned and a new record starts.
    pub fn feed_line(&mut self, line: &str) -> (d: Option<Decoding>)
        requires
            line_ok(line@),
        ensures
            line_continues(line@) ==> d is None && final(self)@ == old(self)@ + line_bytes(line@)->0,
            !line_continues(line@) ==> (d matches Some(x) && x@ == decoding_of(
                old(self)@ + line_bytes(line@)->0,
            )) && final(self)@ == Seq::<u8>::empty(),
    {
        match read_line(line) {
            Some((bytes, continues)) => self.add_line(bytes, continues),
            None => vstd::pervasive::unreached(),
        }
    }

    /// Adds a line as `feed_line` does when the decoder takes it (`line_ok`); otherwise gives
    /// `None` and leaves the record unchanged.
    pub fn try_feed_line(&mut self, line: &str) -> (r: Option<Option<Decoding>>)
        ensures
            !line_ok(line@) ==> r is None && final(self)@ == old(self)@,
            line_ok(line@) && line_continues(line@) ==> r == Some(None::<Decoding>)
                && final(self)@ == old(self)@ + line_bytes(line@)->0,
            line_ok(line@) && !line_continues(line@) ==> (r matches Some(Some(x))
                && x@ == decoding_of(old(self)@ + line_bytes(line@)->0))
                && final(self)@ == Seq::<u8>::empty(),
    {
        match read_line(line) {
            Some((bytes, continues)) => Some(self.add_line(bytes, continues)),
            None => None,
        }
    }

    /// Whether bytes of an unfinished record are left, which at the end of the input is an
    /// unexpected end.
    pub fn has_unfinished(&self) -> (b: bool)
        ensures
            b == (self@.len() > 0),
    {
        self.combined.len() > 0
    }
}

} // verus!
