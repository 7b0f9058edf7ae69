//! Byte-to-text encodings at the protocol edge: percent-encoding of URL
//! segments, base64 for the signing flow, and hex for the returned
//! signature.

use vstd::prelude::*;
use vstd::string::StringSliceAdditionalSpecFns;
verus! {

pub open spec fn is_ascii_alnum_byte(b: u8) -> bool {
    (48 <= b && b <= 57) || (65 <= b && b <= 90) || (97 <= b && b <= 122)
}

/// The uppercase hex digit of `d % 16`.
pub open spec fn hex_upper(d: nat) -> char {
    if d % 16 < 10 {
        ((48 + d % 16) as u8) as char
    } else {
        ((55 + d % 16) as u8) as char
    }
}

/// How one byte percent-encodes: ASCII alphanumerics pass through, every
/// other byte becomes `%XX` with uppercase hex digits.
pub open spec fn pe_byte(b: u8) -> Seq<char> {
    if is_ascii_alnum_byte(b) {
        seq![b as char]
    } else {
        seq!['%', hex_upper(b as nat / 16), hex_upper(b as nat % 16)]
    }
}

/// The percent-encoding of a byte sequence.
pub open spec fn pe_of(bytes: Seq<u8>) -> Seq<char>
    decreases bytes.len(),
{
    if bytes.len() == 0 {
        Seq::<char>::empty()
    } else {
        pe_of(bytes.drop_last()) + pe_byte(bytes.last())
    }
}

/// Relies on `percent_encoding::utf8_percent_encode` with the
/// `NON_ALPHANUMERIC` set: every byte that is not an ASCII alphanumeric is
/// written as `%XX` with uppercase hex digits, and ASCII alphanumerics pass
/// through unchanged.
#[verifier::external_body]
pub fn percent_encode_str(s: &str) -> (r: String)
    ensures
        r@ == pe_of(s.spec_bytes()),
{
    percent_encoding::utf8_percent_encode(s, percent_encoding::NON_ALPHANUMERIC).to_string()
}

/// The standard (padded) base64 encoding of a byte sequence. The result is a
/// function of the bytes alone; its content is not spelled out here.
pub uninterp spec fn base64_of(bytes: Seq<u8>) -> Seq<char>;

pub open spec fn is_base64_char(c: char) -> bool {
    ('A' <= c && c <= 'Z') || ('a' <= c && c <= 'z') || ('0' <= c && c <= '9') || c == '+' || c
        == '/' || c == '='
}

/// Relies on base64's `STANDARD` engine: the padded standard-alphabet
/// encoding, four output characters for every three input bytes, drawn from
/// `A-Z a-z 0-9 + / =`.
#[verifier::external_body]
pub fn base64_encode(data: &Vec<u8>) -> (r: String)
    ensures
        r@ == base64_of(data@),
        r@.len() == 4 * ((data@.len() + 2) / 3),
        forall|i: int| 0 <= i < r@.len() ==> is_base64_char(#[trigger] r@[i]),
{
    base64::Engine::encode(&base64::prelude::BASE64_STANDARD, data)
}

/// Relies on base64's `STANDARD` engine decode: it requires canonical
/// padding and rejects non-zero trailing bits, so it fails exactly on the
/// inputs that are no canonical encoding, and a successful decode returns
/// exactly the bytes whose standard encoding is the input — which also
/// makes those bytes unique.
#[verifier::external_body]
pub fn base64_decode(s: &str) -> (r: Option<Vec<u8>>)
    ensures
        r matches Some(b) ==> s@ == base64_of(b@),
        (exists|b: Seq<u8>| s@ == base64_of(b)) ==> r is Some,
        r matches Some(b) ==> forall|b2: Seq<u8>| s@ == base64_of(b2) ==> b2 == b@,
{
    match base64::Engine::decode(&base64::prelude::BASE64_STANDARD, s) {
        Ok(v) => Some(v),
        Err(_) => None,
    }
}

/// The lowercase hex digit of `d % 16`.
pub open spec fn hex_lower(d: nat) -> char {
    if d % 16 < 10 {
        ((48 + d % 16) as u8) as char
    } else {
        ((87 + d % 16) as u8) as char
    }
}

/// The lowercase hex encoding of a byte sequence, two digits per byte.
pub open spec fn hex_of(bytes: Seq<u8>) -> Seq<char>
    decreases bytes.len(),
{
    if bytes.len() == 0 {
        Seq::<char>::empty()
    } else {
        hex_of(bytes.drop_last()) + seq![
            hex_lower(bytes.last() as nat / 16),
            hex_lower(bytes.last() as nat % 16),
        ]
    }
}

/// Lowercase hex encoding, two digits for each byte.
pub fn hex_chars(data: &Vec<u8>) -> (r: Vec<char>)
    ensures
        r@ == hex_of(data@),
{
    let mut out: Vec<char> = Vec::new();
    let mut i: usize = 0;
    while i < data.len()
        invariant
            i <= data@.len(),
            out@ == hex_of(data@.take(i as int)),
        decreases data.len() - i,
    {
        let b = data[i];
        let hi: u8 = b / 16;
        let lo: u8 = b % 16;
        let hc: char = if hi < 10 {
            ((48 + hi) as u8) as char
        } else {
            ((55 + 32 + hi) as u8) as char
        };
        let lc: char = if lo < 10 {
            ((48 + lo) as u8) as char
        } else {
            ((55 + 32 + lo) as u8) as char
        };
        out.push(hc);
        out.push(lc);
        proof {
            assert(data@.take(i + 1).drop_last() =~= data@.take(i as int));
            assert(data@.take(i + 1).last() == data@[i as int]);
        }
        i += 1;
    }
    proof {
        assert(data@.take(data@.len() as int) =~= data@);
    }
    out
}

} // verus!
