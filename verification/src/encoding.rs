//! Bytes and the texts that they stand for.

use vstd::prelude::*;
use vstd::utf8::{
    decode_utf8, encode_utf8, encode_utf8_decode_utf8, encode_utf8_valid_utf8, is_ascii_chars,
    is_ascii_chars_encode_utf8, valid_utf8,
};

verus! {

/// `char::from_u32` gives the character with a number. There is none for a surrogate, and none past
/// the last code point.
pub assume_specification[ char::from_u32 ](n: u32) -> (r: Option<char>)
    ensures
        match r {
            Some(c) => c as u32 == n && n <= 0x10FFFF && !(0xD800 <= n <= 0xDFFF),
            None => 0xD800 <= n <= 0xDFFF || n > 0x10FFFF,
        },
;

/// `std::str::from_utf8` gives the text that bytes stand for if they are valid UTF-8, and nothing if
/// they are not.
#[verifier::external_body]
pub(crate) fn from_utf8(bytes: &[u8]) -> (r: Option<String>)
    ensures
        match r {
            Some(text) => valid_utf8(bytes@) && text@ == decode_utf8(bytes@),
            None => !valid_utf8(bytes@),
        },
{
    std::str::from_utf8(bytes).ok().map(|text| text.to_string())
}

/// The text of bytes that are not valid UTF-8, with replacement characters.
pub uninterp spec fn utf8_repaired(bytes: Seq<u8>) -> Seq<char>;

/// The text of bytes; what is not valid UTF-8 in them is replaced.
pub open spec fn lossy(bytes: Seq<u8>) -> Seq<char> {
    if valid_utf8(bytes) {
        decode_utf8(bytes)
    } else {
        utf8_repaired(bytes)
    }
}

/// `String::from_utf8_lossy` gives the text that bytes stand for if they are valid UTF-8. Otherwise
/// it puts replacement characters in; where exactly depends on the bytes alone.
#[verifier::external_body]
pub(crate) fn from_utf8_lossy(bytes: &[u8]) -> (r: String)
    ensures
        r@ == if valid_utf8(bytes@) {
            decode_utf8(bytes@)
        } else {
            utf8_repaired(bytes@)
        },
{
    String::from_utf8_lossy(bytes).into_owned()
}

/// The text of bytes in the GBK encoding.
pub uninterp spec fn gbk_text(bytes: Seq<u8>) -> Seq<char>;

/// `encoding_rs::GBK.decode` reads bytes in the GBK encoding, or in the one that a byte order mark
/// names. The text depends on the bytes alone. Its buffer takes three bytes for each of them, and it
/// gives up on more than it can address.
#[verifier::external_body]
pub(crate) fn decode_gbk(bytes: &[u8]) -> (r: String)
    requires
        bytes@.len() <= usize::MAX / 8,
    ensures
        r@ == gbk_text(bytes@),
{
    let (text, _, _) = encoding_rs::GBK.decode(bytes);
    text.into_owned()
}

/// The text of a response: UTF-8 if it is valid, and GBK if not.
pub open spec fn response_text(bytes: Seq<u8>) -> Seq<char> {
    if valid_utf8(bytes) {
        decode_utf8(bytes)
    } else {
        gbk_text(bytes)
    }
}

/// The text of a response: UTF-8 if it is valid, and GBK if not.
pub fn decode_response(bytes: &[u8]) -> (r: String)
    requires
        bytes@.len() <= usize::MAX / 8,
    ensures
        r@ == response_text(bytes@),
{
    match from_utf8(bytes) {
        Some(text) => text,
        None => decode_gbk(bytes),
    }
}

/// The value of a hexadecimal digit.
pub open spec fn hex_of(b: u8) -> Option<u8> {
    if 0x30 <= b <= 0x39 {
        Some((b - 0x30) as u8)
    } else if 0x61 <= b <= 0x66 {
        Some((b - 0x61 + 10) as u8)
    } else if 0x41 <= b <= 0x46 {
        Some((b - 0x41 + 10) as u8)
    } else {
        None
    }
}

/// The value of a hexadecimal digit.
pub fn hex_val(b: u8) -> (r: Option<u8>)
    ensures
        r == hex_of(b),
{
    if 0x30 <= b && b <= 0x39 {
        Some(b - 0x30)
    } else if 0x61 <= b && b <= 0x66 {
        Some(b - 0x61 + 10)
    } else if 0x41 <= b && b <= 0x46 {
        Some(b - 0x41 + 10)
    } else {
        None
    }
}

/// Whether bytes begin with a percent sign and two hexadecimal digits.
pub open spec fn escape_first(bytes: Seq<u8>) -> bool {
    bytes.len() > 2 && bytes[0] == 0x25 && hex_of(bytes[1]) is Some && hex_of(bytes[2]) is Some
}

/// Bytes with each percent sign and two hexadecimal digits replaced by the byte that they stand for.
pub open spec fn unescaped(bytes: Seq<u8>) -> Seq<u8>
    decreases bytes.len(),
{
    if bytes.len() == 0 {
        Seq::empty()
    } else if escape_first(bytes) {
        seq![(hex_of(bytes[1])->0 * 16 + hex_of(bytes[2])->0) as u8] + unescaped(bytes.skip(3))
    } else {
        seq![bytes[0]] + unescaped(bytes.skip(1))
    }
}

/// A text with its percent escapes replaced by what they stand for.
pub fn percent_decode(input: &str) -> (r: String)
    ensures
        r@ == lossy(unescaped(encode_utf8(input@))),
{
    let bytes = input.as_bytes();
    let ghost all = bytes@;
    assert(all == encode_utf8(input@));
    let total: usize = bytes.len();
    let mut out: Vec<u8> = Vec::new();
    let mut i: usize = 0;
    assert(out@ + unescaped(all.skip(0)) =~= unescaped(all)) by {
        assert(all.skip(0) =~= all);
    }
    while i < total
        invariant
            i <= total,
            total == bytes@.len(),
            all == bytes@,
            out@ + unescaped(all.skip(i as int)) == unescaped(all),
        decreases total - i,
    {
        let ghost before = out@;
        let ghost rest = all.skip(i as int);
        if bytes[i] == 0x25 && total - i > 2 {
            assert(rest[1] == all[i + 1] && rest[2] == all[i + 2]);
            let high = hex_val(bytes[i + 1]);
            let low = hex_val(bytes[i + 2]);
            if let (Some(high), Some(low)) = (high, low) {
                out.push(high * 16 + low);
                proof {
                    assert(escape_first(rest));
                    assert(rest.skip(3) =~= all.skip(i + 3));
                    assert(out@ + unescaped(rest.skip(3)) =~= before + unescaped(rest));
                }
                i += 3;
                continue;
            }
        }
        out.push(bytes[i]);
        proof {
            assert(rest.skip(1) =~= all.skip(i + 1));
            assert(out@ + unescaped(rest.skip(1)) =~= before + unescaped(rest));
        }
        i += 1;
    }
    assert(all.skip(i as int).len() == 0);
    assert(out@ =~= unescaped(all));
    from_utf8_lossy(out.as_slice())
}

/// Whether a byte stands for itself in a URL.
pub open spec fn unreserved(b: u8) -> bool {
    0x41 <= b <= 0x5A || 0x61 <= b <= 0x7A || 0x30 <= b <= 0x39 || b == 0x2D || b == 0x5F || b == 0x2E
        || b == 0x7E
}

/// The hexadecimal digit for a value below sixteen.
pub open spec fn hex_digit(n: nat) -> char {
    if n < 10 {
        ('0' as nat + n) as char
    } else {
        ('A' as nat + (n - 10)) as char
    }
}

/// A byte as it is written in a URL.
pub open spec fn escaped_byte(b: u8) -> Seq<char> {
    if unreserved(b) {
        seq![b as char]
    } else {
        seq!['%', hex_digit((b / 16) as nat), hex_digit((b % 16) as nat)]
    }
}

/// The first `n` bytes as they are written in a URL.
pub open spec fn escaped(bytes: Seq<u8>, n: int) -> Seq<char>
    decreases n,
{
    if n <= 0 {
        Seq::empty()
    } else {
        escaped(bytes, n - 1) + escaped_byte(bytes[n - 1])
    }
}

/// A text as it is written in a URL.
pub open spec fn url_encoded(s: Seq<char>) -> Seq<char> {
    escaped(encode_utf8(s), encode_utf8(s).len() as int)
}

/// The hexadecimal digit for a value below sixteen.
fn hex_char(n: u8) -> (r: char)
    requires
        n < 16,
    ensures
        r == hex_digit(n as nat),
{
    let digits: [char; 16] = [
        '0', '1', '2', '3', '4', '5', '6', '7', '8', '9', 'A', 'B', 'C', 'D', 'E', 'F',
    ];
    digits[n as usize]
}

/// A text as it is written in a URL.
pub fn url_encode(input: &str) -> (r: String)
    ensures
        r@ == url_encoded(input@),
{
    let bytes = input.as_bytes();
    let ghost all = bytes@;
    let total: usize = bytes.len();
    let mut out = String::new();
    let mut i: usize = 0;
    assert(out@ =~= escaped(all, 0));
    while i < total
        invariant
            i <= total,
            total == bytes@.len(),
            all == bytes@,
            out@ == escaped(all, i as int),
        decreases total - i,
    {
        let b: u8 = bytes[i];
        let ghost before = out@;
        if (0x41 <= b && b <= 0x5A) || (0x61 <= b && b <= 0x7A) || (0x30 <= b && b <= 0x39) || b
            == 0x2D || b == 0x5F || b == 0x2E || b == 0x7E {
            out.push(b as char);
        } else {
            out.push('%');
            out.push(hex_char(b / 16));
            out.push(hex_char(b % 16));
        }
        assert(out@ =~= before + escaped_byte(b));
        i += 1;
    }
    out
}

/// Characters below 128 as bytes.
pub open spec fn ascii(s: Seq<char>) -> Seq<u8> {
    Seq::new(s.len(), |i: int| s[i] as u8)
}

proof fn escaped_is_ascii(bytes: Seq<u8>, n: int)
    requires
        0 <= n <= bytes.len(),
    ensures
        is_ascii_chars(escaped(bytes, n)),
    decreases n,
{
    if n > 0 {
        escaped_is_ascii(bytes, n - 1);
        let head = escaped(bytes, n - 1);
        let tail = escaped_byte(bytes[n - 1]);
        assert forall|i: int| 0 <= i < (head + tail).len() implies 0 <= #[trigger] (head + tail)[i]
            < 128 by {
            if i < head.len() {
                assert((head + tail)[i] == head[i]);
            } else {
                assert((head + tail)[i] == tail[i - head.len()]);
            }
        }
    }
}

proof fn escaped_grows(bytes: Seq<u8>, i: int, n: int)
    requires
        0 <= i <= n <= bytes.len(),
    ensures
        escaped(bytes, i).len() <= escaped(bytes, n).len(),
        escaped(bytes, n).take(escaped(bytes, i).len() as int) == escaped(bytes, i),
    decreases n - i,
{
    if i < n {
        escaped_grows(bytes, i, n - 1);
        let k = escaped(bytes, i).len() as int;
        assert(escaped(bytes, n).take(k) =~= escaped(bytes, n - 1).take(k));
    } else {
        assert(escaped(bytes, n).take(escaped(bytes, n).len() as int) =~= escaped(bytes, n));
    }
}

proof fn digits_are_read_back(b: u8)
    ensures
        hex_of(hex_digit((b / 16) as nat) as u8) == Some((b / 16) as u8),
        hex_of(hex_digit((b % 16) as nat) as u8) == Some((b % 16) as u8),
{
}

proof fn unescaped_from(bytes: Seq<u8>, i: int)
    requires
        0 <= i <= bytes.len(),
    ensures
        unescaped(ascii(escaped(bytes, bytes.len() as int)).skip(escaped(bytes, i).len() as int))
            == bytes.skip(i),
    decreases bytes.len() - i,
{
    let n = bytes.len() as int;
    let all = ascii(escaped(bytes, n));
    let at = escaped(bytes, i).len() as int;
    let rest = all.skip(at);
    escaped_grows(bytes, i, n);
    if i == n {
        assert(rest.len() == 0);
        assert(bytes.skip(i) =~= Seq::empty());
    } else {
        escaped_grows(bytes, i + 1, n);
        unescaped_from(bytes, i + 1);
        let next = escaped(bytes, i + 1);
        let piece = escaped_byte(bytes[i]);
        assert(next =~= escaped(bytes, i) + piece);
        assert forall|k: int| 0 <= k < piece.len() implies rest[k] == #[trigger] piece[k] as u8 by {
            assert(next[at + k] == piece[k]);
            assert(escaped(bytes, n).take(next.len() as int)[at + k] == next[at + k]);
        }
        if unreserved(bytes[i]) {
            assert(rest[0] == piece[0] as u8);
            assert(rest[0] == bytes[i]);
            assert(rest.skip(1) =~= all.skip(next.len() as int));
            assert(seq![bytes[i]] + bytes.skip(i + 1) =~= bytes.skip(i));
        } else {
            digits_are_read_back(bytes[i]);
            assert(rest[0] == piece[0] as u8 && rest[1] == piece[1] as u8 && rest[2] == piece[2] as u8);
            assert(escape_first(rest));
            assert(rest.skip(3) =~= all.skip(next.len() as int));
            assert(seq![bytes[i]] + bytes.skip(i + 1) =~= bytes.skip(i));
        }
    }
}

/// What was written for a URL is read back as it was.
pub proof fn escaping_is_undone(s: Seq<char>)
    ensures
        lossy(unescaped(encode_utf8(url_encoded(s)))) == s,
{
    let bytes = encode_utf8(s);
    let n = bytes.len() as int;
    escaped_is_ascii(bytes, n);
    is_ascii_chars_encode_utf8(url_encoded(s));
    assert(encode_utf8(url_encoded(s)) =~= ascii(url_encoded(s)));
    unescaped_from(bytes, 0);
    assert(ascii(url_encoded(s)).skip(0) =~= ascii(url_encoded(s)));
    assert(bytes.skip(0) =~= bytes);
    encode_utf8_valid_utf8(s);
    encode_utf8_decode_utf8(s);
}

} // verus!
