//! SHA-256 checksums of recipe scripts, written as lowercase hex.

use vstd::prelude::*;
use crate::text::string_of;

verus! {

/// The SHA-256 digest of a byte sequence.
pub uninterp spec fn sha256(data: Seq<u8>) -> Seq<u8>;

/// Calls `sha2::Sha256::digest`. Trusted: the result is `sha256` of the data,
/// and it has the 32 bytes of a SHA-256 output.
#[verifier::external_body]
fn sha256_digest(data: &[u8]) -> (r: Vec<u8>)
    ensures
        r@ == sha256(data@),
        r@.len() == 32,
{
    <sha2::Sha256 as sha2::Digest>::digest(data).to_vec()
}

/// The lowercase hex digit for a value below 16.
pub open spec fn hex_digit(n: u8) -> char {
    if n < 10 {
        seq!['0', '1', '2', '3', '4', '5', '6', '7', '8', '9'][n as int]
    } else {
        seq!['a', 'b', 'c', 'd', 'e', 'f'][n - 10]
    }
}

/// Each byte as two lowercase hex digits, high half first.
pub open spec fn hex_lower(bytes: Seq<u8>) -> Seq<char>
    decreases bytes.len(),
{
    if bytes.len() == 0 {
        Seq::empty()
    } else {
        hex_lower(bytes.drop_last()) + seq![
            hex_digit(bytes.last() / 16),
            hex_digit(bytes.last() % 16),
        ]
    }
}

/// The checksum of a script: the SHA-256 of its UTF-8 bytes, in lowercase hex.
pub open spec fn checksum_of(sql: Seq<char>) -> Seq<char> {
    hex_lower(sha256(vstd::utf8::encode_utf8(sql)))
}

fn hex_char(n: u8) -> (c: char)
    requires
        n < 16,
    ensures
        c == hex_digit(n),
{
    match n {
        0 => '0',
        1 => '1',
        2 => '2',
        3 => '3',
        4 => '4',
        5 => '5',
        6 => '6',
        7 => '7',
        8 => '8',
        9 => '9',
        10 => 'a',
        11 => 'b',
        12 => 'c',
        13 => 'd',
        14 => 'e',
        _ => 'f',
    }
}

/// Hex text has two digits per byte.
pub proof fn lemma_hex_lower_len(bytes: Seq<u8>)
    ensures
        hex_lower(bytes).len() == 2 * bytes.len(),
    decreases bytes.len(),
{
    if bytes.len() > 0 {
        lemma_hex_lower_len(bytes.drop_last());
    }
}

/// The lowercase hex text of a byte slice.
pub fn to_hex_lower(data: &[u8]) -> (s: String)
    ensures
        s@ == hex_lower(data@),
{
    let mut digits: Vec<char> = Vec::new();
    let mut i: usize = 0;
    while i < data.len()
        invariant
            i <= data@.len(),
            digits@ == hex_lower(data@.take(i as int)),
        decreases data@.len() - i,
    {
        let b = data[i];
        digits.push(hex_char(b / 16));
        digits.push(hex_char(b % 16));
        assert(data@.take(i + 1).drop_last() =~= data@.take(i as int));
        i = i + 1;
    }
    assert(data@.take(data@.len() as int) =~= data@);
    string_of(digits.as_slice())
}

/// The checksum of a script.
pub fn sql_checksum(sql: &str) -> (r: String)
    ensures
        r@ == checksum_of(sql@),
        r@.len() == 64,
{
    let digest = sha256_digest(sql.as_bytes());
    let r = to_hex_lower(digest.as_slice());
    proof {
        lemma_hex_lower_len(digest@);
    }
    r
}

/// Every character is ASCII.
pub open spec fn all_ascii(s: Seq<char>) -> bool {
    forall|i: int| 0 <= i < s.len() ==> (#[trigger] s[i] as u32) < 128
}

proof fn lemma_hex_lower_ascii(bytes: Seq<u8>)
    ensures
        all_ascii(hex_lower(bytes)),
    decreases bytes.len(),
{
    if bytes.len() > 0 {
        lemma_hex_lower_ascii(bytes.drop_last());
        let prev = hex_lower(bytes.drop_last());
        let hi = bytes.last() / 16;
        let lo = bytes.last() % 16;
        let tail = seq![hex_digit(hi), hex_digit(lo)];
        assert(hex_digit(hi) as u32 <= 'f' as u32);
        assert(hex_digit(lo) as u32 <= 'f' as u32);
        let r = prev + tail;
        assert forall|i: int| 0 <= i < r.len() implies (#[trigger] r[i] as u32) < 128 by {
            if i < prev.len() {
                assert(r[i] == prev[i]);
            } else {
                assert(r[i] == tail[i - prev.len()]);
            }
        }
    }
}

proof fn lemma_encode_ascii(s: Seq<char>)
    requires
        all_ascii(s),
    ensures
        vstd::utf8::encode_utf8(s).len() == s.len(),
        forall|i: int|
            0 <= i < s.len() ==> (#[trigger] vstd::utf8::encode_utf8(s)[i]) < 0x80,
    decreases s.len(),
{
    if s.len() > 0 {
        let rest = s.drop_first();
        assert forall|i: int| 0 <= i < rest.len() implies (#[trigger] rest[i] as u32) < 128 by {
            assert(rest[i] == s[i + 1]);
        }
        lemma_encode_ascii(rest);
        let c = s[0] as u32;
        assert(c < 128);
        let b = vstd::utf8::leading_byte_width_1(c);
        assert(b < 0x80) by (bit_vector)
            requires
                b == (c & 0x7F) as u8,
        ;
        let e = vstd::utf8::encode_utf8(s);
        assert(vstd::utf8::encode_scalar(c) == seq![b]);
        assert(e == seq![b] + vstd::utf8::encode_utf8(rest));
        assert forall|i: int| 0 <= i < s.len() implies (#[trigger] e[i]) < 0x80 by {
            if i > 0 {
                assert(e[i] == vstd::utf8::encode_utf8(rest)[i - 1]);
            }
        }
    }
}

/// An ASCII text of at least 8 characters can be cut after 8 bytes.
pub proof fn lemma_ascii_has_prefix8(s: Seq<char>)
    requires
        all_ascii(s),
        s.len() >= 8,
    ensures
        vstd::utf8::is_char_boundary(vstd::utf8::encode_utf8(s), 8),
{
    lemma_encode_ascii(s);
    let e = vstd::utf8::encode_utf8(s);
    vstd::utf8::encode_utf8_valid_utf8(s);
    if s.len() == 8 {
        vstd::utf8::is_char_boundary_start_end_of_seq(e);
    } else {
        assert(e[8] < 0x80);
        vstd::utf8::is_char_boundary_iff_not_is_continuation_byte(e, 8);
    }
}

/// A checksum is written in ASCII characters.
pub proof fn lemma_checksum_ascii(sql: Seq<char>)
    ensures
        all_ascii(checksum_of(sql)),
{
    lemma_hex_lower_ascii(sha256(vstd::utf8::encode_utf8(sql)));
}

} // verus!
