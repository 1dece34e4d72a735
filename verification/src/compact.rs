//! The shape of a token in compact serialization: three segments of unpadded
//! base64url, joined by dots.

use vstd::prelude::*;
use vstd::string::is_ascii_spec_bytes;
use vstd::utf8::is_ascii_chars;

verus! {

/// The ASCII codes of the characters that the scan of a token tells apart.
const DOT: u8 = 46;

const MINUS: u8 = 45;

const UNDERSCORE: u8 = 95;

const DIGIT_0: u8 = 48;

const DIGIT_9: u8 = 57;

const UPPER_A: u8 = 65;

const UPPER_Z: u8 = 90;

const LOWER_A: u8 = 97;

const LOWER_Z: u8 = 122;

/// A character of the URL-safe base64 alphabet.
pub open spec fn is_base64url_char(c: char) -> bool {
    ('A' <= c <= 'Z') || ('a' <= c <= 'z') || ('0' <= c <= '9') || c == '-' || c == '_'
}

/// The six bits that a character of the alphabet stands for.
pub open spec fn sextet(c: char) -> int {
    if 'A' <= c <= 'Z' {
        c as int - 'A' as int
    } else if 'a' <= c <= 'z' {
        c as int - 'a' as int + 26
    } else if '0' <= c <= '9' {
        c as int - '0' as int + 52
    } else if c == '-' {
        62
    } else {
        63
    }
}

/// Unpadded base64url as an encoder writes it: only characters of the
/// alphabet, a length that whole bytes can give, and no bit set in the last
/// character beyond the last whole byte.
pub open spec fn is_base64url_text(text: Seq<char>) -> bool {
    &&& forall|i: int| 0 <= i < text.len() ==> is_base64url_char(#[trigger] text[i])
    &&& text.len() % 4 != 1
    &&& text.len() % 4 == 2 ==> sextet(text.last()) % 16 == 0
    &&& text.len() % 4 == 3 ==> sextet(text.last()) % 4 == 0
}

/// Three segments joined by dots.
pub open spec fn compact(header: Seq<char>, payload: Seq<char>, signature: Seq<char>) -> Seq<char> {
    header + seq!['.'] + payload + seq!['.'] + signature
}

/// A compact serialization: exactly three dot-separated segments, each of
/// them unpadded base64url.
pub open spec fn is_compact(token: Seq<char>) -> bool {
    exists|header: Seq<char>, payload: Seq<char>, signature: Seq<char>|
        {
            &&& token == #[trigger] compact(header, payload, signature)
            &&& is_base64url_text(header)
            &&& is_base64url_text(payload)
            &&& is_base64url_text(signature)
        }
}

/// Where the last dot of a token stands.
pub open spec fn last_dot(token: Seq<char>) -> int {
    choose|at: int|
        0 <= at < token.len() && token[at] == '.' && forall|j: int|
            at < j < token.len() ==> token[j] != '.'
}

/// The text that is signed: all that stands before the last dot.
pub open spec fn signed_text(token: Seq<char>) -> Seq<char> {
    token.subrange(0, last_dot(token))
}

/// The signature segment: all that stands after the last dot.
pub open spec fn signature_segment(token: Seq<char>) -> Seq<char> {
    token.subrange(last_dot(token) + 1, token.len() as int)
}

/// The bytes are the characters, one for one, and all of them ASCII.
spec fn spelled(bytes: Seq<u8>, text: Seq<char>) -> bool {
    &&& bytes.len() == text.len()
    &&& forall|i: int|
        0 <= i < text.len() ==> (#[trigger] text[i]) <= '\u{7f}' && bytes[i] == text[i] as u8
}

/// An ASCII character and the byte that spells it are the same number.
proof fn lemma_ascii_byte(c: char, byte: u8)
    requires
        c <= '\u{7f}',
        byte == c as u8,
    ensures
        byte as int == c as int,
        (byte == DOT) == (c == '.'),
{
}

/// The first dot at or after `from`, or the length if there is none.
fn find_dot(bytes: &[u8], from: usize, Ghost(text): Ghost<Seq<char>>) -> (at: usize)
    requires
        from <= bytes@.len(),
        spelled(bytes@, text),
    ensures
        from <= at <= text.len(),
        forall|j: int| from <= j < at ==> text[j] != '.',
        at < text.len() ==> text[at as int] == '.',
{
    let mut at = from;
    while at < bytes.len()
        invariant
            from <= at <= bytes@.len(),
            spelled(bytes@, text),
            forall|j: int| from <= j < at ==> text[j] != '.',
        decreases bytes@.len() - at,
    {
        proof {
            lemma_ascii_byte(text[at as int], bytes@[at as int]);
        }
        if bytes[at] == DOT {
            return at;
        }
        at += 1;
    }
    at
}

/// Whether a byte spells a character of the alphabet.
fn is_base64url_byte(byte: u8, Ghost(c): Ghost<char>) -> (ok: bool)
    requires
        c <= '\u{7f}',
        byte == c as u8,
    ensures
        ok == is_base64url_char(c),
{
    (UPPER_A <= byte && byte <= UPPER_Z) || (LOWER_A <= byte && byte <= LOWER_Z) || (DIGIT_0
        <= byte && byte <= DIGIT_9) || byte == MINUS || byte == UNDERSCORE
}

/// The six bits that a byte of the alphabet stands for.
fn sextet_of(byte: u8, Ghost(c): Ghost<char>) -> (bits: u8)
    requires
        c <= '\u{7f}',
        byte == c as u8,
        is_base64url_char(c),
    ensures
        bits == sextet(c),
        bits < 64,
{
    if UPPER_A <= byte && byte <= UPPER_Z {
        byte - UPPER_A
    } else if LOWER_A <= byte && byte <= LOWER_Z {
        byte - LOWER_A + 26
    } else if DIGIT_0 <= byte && byte <= DIGIT_9 {
        byte - DIGIT_0 + 52
    } else if byte == MINUS {
        62
    } else {
        63
    }
}

/// Whether the bytes from `from` up to `to` spell unpadded base64url.
fn is_base64url_range(bytes: &[u8], from: usize, to: usize, Ghost(text): Ghost<Seq<char>>) -> (ok:
    bool)
    requires
        from <= to <= bytes@.len(),
        spelled(bytes@, text),
    ensures
        ok == is_base64url_text(text.subrange(from as int, to as int)),
{
    let ghost segment = text.subrange(from as int, to as int);
    let mut at = from;
    while at < to
        invariant
            from <= at <= to <= bytes@.len(),
            spelled(bytes@, text),
            segment == text.subrange(from as int, to as int),
            forall|i: int| 0 <= i < at - from ==> is_base64url_char(#[trigger] segment[i]),
        decreases to - at,
    {
        if !is_base64url_byte(bytes[at], Ghost(text[at as int])) {
            assert(!is_base64url_char(segment[at - from]));
            return false;
        }
        assert(segment[at - from] == text[at as int]);
        at += 1;
    }
    let rest = (to - from) % 4;
    if rest == 0 {
        true
    } else if rest == 1 {
        false
    } else {
        assert(segment.last() == text[to - 1]);
        let bits = sextet_of(bytes[to - 1], Ghost(text[to - 1]));
        if rest == 2 {
            bits % 16 == 0
        } else {
            bits % 4 == 0
        }
    }
}

/// A compact serialization has exactly two dots: one after the header
/// segment, one after the payload segment.
pub proof fn lemma_two_dots(header: Seq<char>, payload: Seq<char>, signature: Seq<char>)
    requires
        is_base64url_text(header),
        is_base64url_text(payload),
        is_base64url_text(signature),
    ensures
        forall|i: int|
            0 <= i < compact(header, payload, signature).len() ==> (compact(
                header,
                payload,
                signature,
            )[i] == '.' <==> i == header.len() || i == header.len() + 1 + payload.len()),
{
    let token = compact(header, payload, signature);
    assert forall|i: int| 0 <= i < token.len() implies (token[i] == '.' <==> i == header.len() || i
        == header.len() + 1 + payload.len()) by {
        if i < header.len() {
            assert(token[i] == header[i]);
        } else if i == header.len() {
        } else if i < header.len() + 1 + payload.len() {
            assert(token[i] == payload[i - header.len() - 1]);
        } else if i == header.len() + 1 + payload.len() {
        } else {
            assert(token[i] == signature[i - header.len() - payload.len() - 2]);
        }
    }
}

/// A token can be taken apart in one way only: two serializations that are the
/// same text have the same three segments.
pub proof fn lemma_segments_unique(
    a: Seq<char>,
    b: Seq<char>,
    c: Seq<char>,
    header: Seq<char>,
    payload: Seq<char>,
    signature: Seq<char>,
)
    requires
        compact(a, b, c) == compact(header, payload, signature),
        is_base64url_text(header),
        is_base64url_text(payload),
        is_base64url_text(signature),
    ensures
        a == header,
        b == payload,
        c == signature,
{
    let token = compact(header, payload, signature);
    let first = header.len() as int;
    let second = (header.len() + 1 + payload.len()) as int;
    lemma_two_dots(header, payload, signature);
    assert(token.len() == a.len() + b.len() + c.len() + 2);
    // The two dots that `compact` writes are the only dots of the token.
    assert(token[a.len() as int] == '.');
    assert(token[(a.len() + 1 + b.len()) as int] == '.');
    assert(a.len() == first);
    assert(a.len() + 1 + b.len() == second);
    assert(a =~= header) by {
        assert forall|i: int| 0 <= i < a.len() implies a[i] == header[i] by {
            assert(compact(a, b, c)[i] == a[i]);
            assert(token[i] == header[i]);
        }
    }
    assert(b =~= payload) by {
        assert forall|i: int| 0 <= i < b.len() implies b[i] == payload[i] by {
            assert(compact(a, b, c)[i + first + 1] == b[i]);
            assert(token[i + first + 1] == payload[i]);
        }
    }
    assert(c =~= signature) by {
        assert forall|i: int| 0 <= i < c.len() implies c[i] == signature[i] by {
            assert(compact(a, b, c)[i + second + 1] == c[i]);
            assert(token[i + second + 1] == signature[i]);
        }
    }
}

/// In a compact serialization the last dot is the one before the signature.
pub proof fn lemma_last_dot(header: Seq<char>, payload: Seq<char>, signature: Seq<char>)
    requires
        is_base64url_text(header),
        is_base64url_text(payload),
        is_base64url_text(signature),
    ensures
        last_dot(compact(header, payload, signature)) == header.len() + 1 + payload.len(),
        signed_text(compact(header, payload, signature)) == header + seq!['.'] + payload,
        signature_segment(compact(header, payload, signature)) == signature,
{
    let token = compact(header, payload, signature);
    let second = (header.len() + 1 + payload.len()) as int;
    lemma_two_dots(header, payload, signature);
    assert(token[second] == '.');
    assert(forall|j: int| second < j < token.len() ==> token[j] != '.');
    let at = last_dot(token);
    assert(0 <= at < token.len() && token[at] == '.' && forall|j: int|
        at < j < token.len() ==> token[j] != '.');
    assert(at == second) by {
        if at == header.len() {
            assert(token[second] != '.');
        }
    }
    assert(signed_text(token) =~= header + seq!['.'] + payload);
    assert(signature_segment(token) =~= signature);
}

/// Whether `token` is a compact serialization.
pub fn is_compact_token(token: &str) -> (ok: bool)
    ensures
        ok == is_compact(token@),
{
    let ghost text = token@;
    if !token.is_ascii() {
        proof {
            if is_compact(text) {
                lemma_compact_is_ascii(text);
            }
        }
        return false;
    }
    let bytes = token.as_bytes();
    proof {
        is_ascii_spec_bytes(token);
        assert(spelled(bytes@, text));
    }
    let len = bytes.len();
    let first = find_dot(bytes, 0, Ghost(text));
    if first >= len {
        proof {
            lemma_not_compact_without_dot(text);
        }
        return false;
    }
    let second = find_dot(bytes, first + 1, Ghost(text));
    if second >= len {
        proof {
            lemma_not_compact_with_one_dot(text, first as int);
        }
        return false;
    }
    let third = find_dot(bytes, second + 1, Ghost(text));
    if third < len {
        proof {
            lemma_not_compact_with_three_dots(text, first as int, second as int, third as int);
        }
        return false;
    }
    let header_ok = is_base64url_range(bytes, 0, first, Ghost(text));
    let payload_ok = is_base64url_range(bytes, first + 1, second, Ghost(text));
    let signature_ok = is_base64url_range(bytes, second + 1, len, Ghost(text));
    proof {
        let header = text.subrange(0, first as int);
        let payload = text.subrange(first + 1, second as int);
        let signature = text.subrange(second + 1, len as int);
        assert(text =~= compact(header, payload, signature));
        if header_ok && payload_ok && signature_ok {
            assert(is_compact(text));
        } else if is_compact(text) {
            let (h, p, s) = choose|h: Seq<char>, p: Seq<char>, s: Seq<char>|
                {
                    &&& text == #[trigger] compact(h, p, s)
                    &&& is_base64url_text(h)
                    &&& is_base64url_text(p)
                    &&& is_base64url_text(s)
                };
            lemma_segments_unique(header, payload, signature, h, p, s);
            assert(false);
        }
    }
    header_ok && payload_ok && signature_ok
}

/// A compact serialization is made of ASCII characters only.
pub proof fn lemma_compact_is_ascii(text: Seq<char>)
    requires
        is_compact(text),
    ensures
        is_ascii_chars(text),
{
    let (h, p, s) = choose|h: Seq<char>, p: Seq<char>, s: Seq<char>|
        {
            &&& text == #[trigger] compact(h, p, s)
            &&& is_base64url_text(h)
            &&& is_base64url_text(p)
            &&& is_base64url_text(s)
        };
    assert forall|i: int| 0 <= i < text.len() implies '\0' <= #[trigger] text[i] <= '\u{7f}' by {
        if i < h.len() {
            assert(text[i] == h[i]);
        } else if i == h.len() {
        } else if i < h.len() + 1 + p.len() {
            assert(text[i] == p[i - h.len() - 1]);
        } else if i == h.len() + 1 + p.len() {
        } else {
            assert(text[i] == s[i - h.len() - p.len() - 2]);
        }
    }
}

proof fn lemma_not_compact_without_dot(text: Seq<char>)
    requires
        forall|j: int| 0 <= j < text.len() ==> text[j] != '.',
    ensures
        !is_compact(text),
{
    if is_compact(text) {
        let (h, p, s) = choose|h: Seq<char>, p: Seq<char>, s: Seq<char>|
            {
                &&& text == #[trigger] compact(h, p, s)
                &&& is_base64url_text(h)
                &&& is_base64url_text(p)
                &&& is_base64url_text(s)
            };
        assert(text[h.len() as int] == '.');
        assert(false);
    }
}

proof fn lemma_not_compact_with_one_dot(text: Seq<char>, first: int)
    requires
        0 <= first < text.len(),
        forall|j: int| 0 <= j < text.len() && j != first ==> text[j] != '.',
    ensures
        !is_compact(text),
{
    if is_compact(text) {
        let (h, p, s) = choose|h: Seq<char>, p: Seq<char>, s: Seq<char>|
            {
                &&& text == #[trigger] compact(h, p, s)
                &&& is_base64url_text(h)
                &&& is_base64url_text(p)
                &&& is_base64url_text(s)
            };
        assert(text[h.len() as int] == '.');
        assert(text[(h.len() + 1 + p.len()) as int] == '.');
        assert(false);
    }
}

proof fn lemma_not_compact_with_three_dots(text: Seq<char>, first: int, second: int, third: int)
    requires
        0 <= first < second < third < text.len(),
        text[first] == '.',
        text[second] == '.',
        text[third] == '.',
    ensures
        !is_compact(text),
{
    if is_compact(text) {
        let (h, p, s) = choose|h: Seq<char>, p: Seq<char>, s: Seq<char>|
            {
                &&& text == #[trigger] compact(h, p, s)
                &&& is_base64url_text(h)
                &&& is_base64url_text(p)
                &&& is_base64url_text(s)
            };
        lemma_two_dots(h, p, s);
        let token = compact(h, p, s);
        assert(token[first] == '.' && token[second] == '.' && token[third] == '.');
        assert(false);
    }
}

} // verus!
