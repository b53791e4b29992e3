//! Text building blocks for the wire payloads: UTF-8 literal bytes, JSON
//! string escaping, base64 of image bytes, and blank-credential detection.
use vstd::prelude::*;
use vstd::utf8::encode_utf8;

use base64::Engine;

verus! {

/// A byte count safely below the point where base64 output length
/// calculations could overflow a `usize`.
pub const MAX_BASE64_INPUT: usize = usize::MAX / 4;

/// What base64 (standard alphabet, padded) makes of a byte sequence. The
/// encoding is a function of the input bytes alone.
pub uninterp spec fn base64_of(bytes: Seq<u8>) -> Seq<char>;

/// Relies on base64's `engine::general_purpose::STANDARD.encode`: standard
/// alphabet with padding, a pure function of the input bytes. The length
/// bound keeps the encoder's output-size arithmetic from overflowing.
#[verifier::external_body]
pub fn base64_encode(bytes: &[u8]) -> (r: String)
    requires
        bytes@.len() < MAX_BASE64_INPUT,
    ensures
        r@ == base64_of(bytes@),
{
    base64::engine::general_purpose::STANDARD.encode(bytes)
}

/// The UTF-8 bytes of a string literal, as they appear on the wire.
pub open spec fn lit_bytes(s: &str) -> Seq<u8> {
    encode_utf8(s@)
}

/// Appends the UTF-8 bytes of `s` to `out`.
pub fn push_lit(out: &mut Vec<u8>, s: &str)
    ensures
        final(out)@ == old(out)@ + lit_bytes(s),
{
    out.extend_from_slice(s.as_bytes());
}

/// How one byte of UTF-8 text is written inside a JSON string: quote,
/// backslash and control bytes are escaped, everything else (including the
/// continuation bytes of multi-byte characters) passes through unchanged.
pub open spec fn escaped_byte(b: u8) -> Seq<u8> {
    if b == 0x22 {
        seq![0x5cu8, 0x22u8]
    } else if b == 0x5c {
        seq![0x5cu8, 0x5cu8]
    } else if b == 0x0a {
        seq![0x5cu8, 0x6eu8]
    } else if b == 0x0d {
        seq![0x5cu8, 0x72u8]
    } else if b == 0x09 {
        seq![0x5cu8, 0x74u8]
    } else if b < 0x20 {
        seq![0x5cu8, 0x75u8, 0x30u8, 0x30u8, hex_digit(b / 16), hex_digit(b % 16)]
    } else {
        seq![b]
    }
}

/// The ASCII code of one lowercase hexadecimal digit.
pub open spec fn hex_digit(d: u8) -> u8 {
    if d < 10 {
        (0x30 + d) as u8
    } else {
        (0x57 + d) as u8
    }
}

/// A byte sequence escaped for use inside a JSON string.
pub open spec fn escape_bytes(s: Seq<u8>) -> Seq<u8>
    decreases s.len(),
{
    if s.len() == 0 {
        Seq::empty()
    } else {
        escaped_byte(s[0]) + escape_bytes(s.drop_first())
    }
}

proof fn lemma_escape_bytes_snoc(s: Seq<u8>, b: u8)
    ensures
        escape_bytes(s.push(b)) == escape_bytes(s) + escaped_byte(b),
    decreases s.len(),
{
    assert(s.push(b)[0] == if s.len() == 0 { b } else { s[0] });
    if s.len() == 0 {
        assert(s.push(b).drop_first() =~= Seq::empty());
        assert(escape_bytes(s.push(b)) == escaped_byte(b) + escape_bytes(Seq::<u8>::empty()));
        assert(escape_bytes(s.push(b)) =~= escape_bytes(s) + escaped_byte(b));
    } else {
        assert(s.push(b).drop_first() =~= s.drop_first().push(b));
        lemma_escape_bytes_snoc(s.drop_first(), b);
        assert(escape_bytes(s.push(b)) =~= escape_bytes(s) + escaped_byte(b));
    }
}

/// The wire form of a JSON string holding the characters of `s`: a quote,
/// the escaped UTF-8 bytes, a quote.
pub open spec fn json_string(s: Seq<char>) -> Seq<u8> {
    lit_bytes("\"") + escape_bytes(encode_utf8(s)) + lit_bytes("\"")
}

/// Appends the escaped bytes of `s` to `out`.
fn push_escaped(out: &mut Vec<u8>, s: &[u8])
    ensures
        final(out)@ == old(out)@ + escape_bytes(s@),
{
    let ghost orig = out@;
    let mut i: usize = 0;
    while i < s.len()
        invariant
            i <= s@.len(),
            out@ == orig + escape_bytes(s@.take(i as int)),
        decreases s@.len() - i,
    {
        let b = s[i];
        if b == 0x22 {
            out.push(0x5c);
            out.push(0x22);
        } else if b == 0x5c {
            out.push(0x5c);
            out.push(0x5c);
        } else if b == 0x0a {
            out.push(0x5c);
            out.push(0x6e);
        } else if b == 0x0d {
            out.push(0x5c);
            out.push(0x72);
        } else if b == 0x09 {
            out.push(0x5c);
            out.push(0x74);
        } else if b < 0x20 {
            out.push(0x5c);
            out.push(0x75);
            out.push(0x30);
            out.push(0x30);
            let hi = b / 16;
            let lo = b % 16;
            out.push(if hi < 10 { 0x30 + hi } else { 0x57 + hi });
            out.push(if lo < 10 { 0x30 + lo } else { 0x57 + lo });
        } else {
            out.push(b);
        }
        proof {
            lemma_escape_bytes_snoc(s@.take(i as int), s@[i as int]);
            assert(s@.take(i + 1 as int) =~= s@.take(i as int).push(s@[i as int]));
        }
        i = i + 1;
    }
    proof {
        assert(s@.take(s@.len() as int) =~= s@);
    }
}

/// Appends the JSON string form of `s` to `out`.
pub fn push_json_string(out: &mut Vec<u8>, s: &str)
    ensures
        final(out)@ == old(out)@ + json_string(s@),
{
    push_lit(out, "\"");
    push_escaped(out, s.as_bytes());
    push_lit(out, "\"");
}

/// Whether one character counts as credential whitespace.
pub open spec fn is_space_char(c: char) -> bool {
    c == ' ' || c == '\t' || c == '\n' || c == '\r' || c == '\u{c}'
}

/// A credential that is empty or all whitespace is missing.
pub open spec fn is_blank(s: Seq<char>) -> bool {
    forall|i: int| 0 <= i < s.len() ==> is_space_char(#[trigger] s[i])
}

/// Whether `s` is empty or whitespace only.
pub fn blank(s: &str) -> (r: bool)
    ensures
        r == is_blank(s@),
{
    let n = s.unicode_len();
    let mut i: usize = 0;
    while i < n
        invariant
            i <= n,
            n == s@.len(),
            forall|j: int| 0 <= j < i ==> is_space_char(#[trigger] s@[j]),
        decreases n - i,
    {
        let c = s.get_char(i);
        if !(c == ' ' || c == '\t' || c == '\n' || c == '\r' || c == '\u{c}') {
            return false;
        }
        i = i + 1;
    }
    true
}

} // verus!
