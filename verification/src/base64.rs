//! The base64 content transfer encoding of MIME: the standard alphabet,
//! `=` padding and a CRLF after every 76 characters of output.

use rustc_serialize::base64::{CharacterSet, Config, Newline, ToBase64};
use vstd::prelude::*;

verus! {

/// The character that stands for the 6-bit value `v`.
pub open spec fn alphabet(v: int) -> char {
    if v < 26 {
        ('A' as int + v) as char
    } else if v < 52 {
        ('a' as int + v - 26) as char
    } else if v < 62 {
        ('0' as int + v - 52) as char
    } else if v == 62 {
        '+'
    } else {
        '/'
    }
}

/// The 6-bit value that `c` stands for; 0 for `=` and for any other character.
pub open spec fn value_of(c: char) -> int {
    let n = c as int;
    if 'A' as int <= n <= 'Z' as int {
        n - 'A' as int
    } else if 'a' as int <= n <= 'z' as int {
        n - 'a' as int + 26
    } else if '0' as int <= n <= '9' as int {
        n - '0' as int + 52
    } else if c == '+' {
        62
    } else if c == '/' {
        63
    } else {
        0
    }
}

/// Byte `i` of the input, or 0 past its end.
pub open spec fn byte_at(bytes: Seq<u8>, i: int) -> int {
    if 0 <= i < bytes.len() {
        bytes[i] as int
    } else {
        0
    }
}

/// The 24-bit number made of the three bytes of group `g`.
pub open spec fn group(bytes: Seq<u8>, g: int) -> int {
    byte_at(bytes, 3 * g) * 65536 + byte_at(bytes, 3 * g + 1) * 256 + byte_at(bytes, 3 * g + 2)
}

/// The `k`-th 6-bit value of the input read as a stream of bits.
pub open spec fn sextet(bytes: Seq<u8>, k: int) -> int {
    let n = group(bytes, k / 4);
    if k % 4 == 0 {
        n / 262144
    } else if k % 4 == 1 {
        n / 4096 % 64
    } else if k % 4 == 2 {
        n / 64 % 64
    } else {
        n % 64
    }
}

/// The number of characters that carry bits of an input of `n` bytes.
pub open spec fn significant(n: nat) -> int {
    (8 * n as int + 5) / 6
}

/// The encoded text on a single line: four characters for every three bytes,
/// the last group filled up with `=`.
pub open spec fn unbroken(bytes: Seq<u8>) -> Seq<char> {
    Seq::new(
        ((bytes.len() + 2) / 3 * 4) as nat,
        |k: int|
            if k < significant(bytes.len()) {
                alphabet(sextet(bytes, k))
            } else {
                '='
            },
    )
}

/// The length of a text of `n` characters once it is broken into lines.
pub open spec fn broken_len(n: nat) -> nat {
    if n == 0 {
        0
    } else {
        (n + 2 * ((n - 1) / 76)) as nat
    }
}

/// `text` with a CRLF between every two consecutive lines of 76 characters.
pub open spec fn break_lines(text: Seq<char>) -> Seq<char> {
    Seq::new(
        broken_len(text.len()),
        |p: int|
            if p % 78 == 76 {
                '\r'
            } else if p % 78 == 77 {
                '\n'
            } else {
                text[p - 2 * (p / 78)]
            },
    )
}

/// The MIME base64 encoding of `bytes`.
pub open spec fn mime_base64(bytes: Seq<u8>) -> Seq<char> {
    break_lines(unbroken(bytes))
}

/// The length of the MIME base64 encoding of `n` bytes.
pub open spec fn encoded_len(n: nat) -> nat {
    broken_len(((n + 2) / 3 * 4) as nat)
}

/// Whether an input of `n` bytes has an encoding that fits in memory.
pub open spec fn encodable(n: nat) -> bool {
    encoded_len(n) <= isize::MAX
}

pub open spec fn is_break(c: char) -> bool {
    c == '\r' || c == '\n'
}

/// `text` without its carriage returns and line feeds.
pub open spec fn strip_breaks(text: Seq<char>) -> Seq<char> {
    text.filter(|c: char| !is_break(c))
}

/// The number of `=` at the end of `text`, at most two.
pub open spec fn padding(text: Seq<char>) -> int {
    if text.len() >= 2 && text[text.len() - 1] == '=' && text[text.len() - 2] == '=' {
        2
    } else if text.len() >= 1 && text[text.len() - 1] == '=' {
        1
    } else {
        0
    }
}

/// The 24-bit number that the four characters of group `g` stand for.
pub open spec fn quad(text: Seq<char>, g: int) -> int {
    value_of(text[4 * g]) * 262144 + value_of(text[4 * g + 1]) * 4096 + value_of(text[4 * g + 2])
        * 64 + value_of(text[4 * g + 3])
}

/// The bytes that an unbroken base64 text stands for.
pub open spec fn decode(text: Seq<char>) -> Seq<u8> {
    Seq::new(
        (text.len() / 4 * 3 - padding(text)) as nat,
        |i: int|
            {
                let n = quad(text, i / 3);
                if i % 3 == 0 {
                    (n / 65536) as u8
                } else if i % 3 == 1 {
                    (n / 256 % 256) as u8
                } else {
                    (n % 256) as u8
                }
            },
    )
}

/// Whether `c` can occur in MIME base64 text.
pub open spec fn is_base64_char(c: char) -> bool {
    let n = c as int;
    ||| 'A' as int <= n <= 'Z' as int
    ||| 'a' as int <= n <= 'z' as int
    ||| '0' as int <= n <= '9' as int
    ||| c == '+'
    ||| c == '/'
    ||| c == '='
    ||| is_break(c)
}

/// Encodes `bytes` with `ToBase64::to_base64` of rustc_serialize, configured
/// with the standard character set, CRLF line ends, padding and lines of 76
/// characters. The contract states the text that this configuration yields.
#[verifier::external_body]
pub(crate) fn to_base64(bytes: &Vec<u8>) -> (text: String)
    requires
        encodable(bytes@.len()),
    ensures
        text@ == mime_base64(bytes@),
{
    bytes.to_base64(
        Config {
            char_set: CharacterSet::Standard,
            newline: Newline::CRLF,
            pad: true,
            line_length: Some(76),
        },
    )
}

/// Tells whether an input of `len` bytes can be encoded.
pub fn can_encode(len: usize) -> (ok: bool)
    ensures
        ok == encodable(len as nat),
{
    let groups: u128 = (len as u128 + 2) / 3;
    let chars: u128 = groups * 4;
    if chars == 0 {
        true
    } else {
        let total: u128 = chars + 2 * ((chars - 1) / 76);
        total <= isize::MAX as u128
    }
}

proof fn lemma_alphabet_value(v: int)
    requires
        0 <= v < 64,
    ensures
        value_of(alphabet(v)) == v,
        is_base64_char(alphabet(v)),
        alphabet(v) != '=',
        !is_break(alphabet(v)),
        alphabet(v) != '_',
{
}

proof fn lemma_sextet_range(bytes: Seq<u8>, k: int)
    requires
        0 <= k,
    ensures
        0 <= sextet(bytes, k) < 64,
        0 <= group(bytes, k / 4) < 16777216,
{
}

proof fn lemma_split_sextets(n: u32)
    by (bit_vector)
    requires
        n < 0x1000000,
    ensures
        (n / 262144) * 262144 + (n / 4096 % 64) * 4096 + (n / 64 % 64) * 64 + n % 64 == n,
{
}

proof fn lemma_split_bytes(b0: u32, b1: u32, b2: u32)
    by (bit_vector)
    requires
        b0 < 256,
        b1 < 256,
        b2 < 256,
    ensures
        (b0 * 65536 + b1 * 256 + b2) / 65536 == b0,
        (b0 * 65536 + b1 * 256 + b2) / 256 % 256 == b1,
        (b0 * 65536 + b1 * 256 + b2) % 256 == b2,
{
}

/// The sextets of one group put together again give the group.
proof fn lemma_sextets_make_group(bytes: Seq<u8>, g: int)
    requires
        0 <= g,
    ensures
        sextet(bytes, 4 * g) * 262144 + sextet(bytes, 4 * g + 1) * 4096 + sextet(bytes, 4 * g + 2)
            * 64 + sextet(bytes, 4 * g + 3) == group(bytes, g),
{
    let n = group(bytes, g);
    assert((4 * g) / 4 == g && (4 * g) % 4 == 0);
    assert((4 * g + 1) / 4 == g && (4 * g + 1) % 4 == 1);
    assert((4 * g + 2) / 4 == g && (4 * g + 2) % 4 == 2);
    assert((4 * g + 3) / 4 == g && (4 * g + 3) % 4 == 3);
    assert(0 <= n < 16777216);
    lemma_split_sextets(n as u32);
    assert(sextet(bytes, 4 * g) == n / 262144);
    assert(sextet(bytes, 4 * g + 1) == n / 4096 % 64);
    assert(sextet(bytes, 4 * g + 2) == n / 64 % 64);
    assert(sextet(bytes, 4 * g + 3) == n % 64);
}

/// Byte `i` of what the unbroken text decodes to is byte `i` of the input.
proof fn lemma_decoded_byte(bytes: Seq<u8>, i: int)
    requires
        0 <= i < bytes.len(),
    ensures
        ({
            let n = quad(unbroken(bytes), i / 3);
            &&& i % 3 == 0 ==> n / 65536 == bytes[i]
            &&& i % 3 == 1 ==> n / 256 % 256 == bytes[i]
            &&& i % 3 == 2 ==> n % 256 == bytes[i]
        }),
{
    let text = unbroken(bytes);
    let g = i / 3;
    assert(4 * g + 3 < text.len());
    lemma_unbroken_char(bytes, 4 * g);
    lemma_unbroken_char(bytes, 4 * g + 1);
    lemma_unbroken_char(bytes, 4 * g + 2);
    lemma_unbroken_char(bytes, 4 * g + 3);
    lemma_sextets_make_group(bytes, g);
    assert(quad(text, g) == group(bytes, g));
    let b0 = byte_at(bytes, 3 * g);
    let b1 = byte_at(bytes, 3 * g + 1);
    let b2 = byte_at(bytes, 3 * g + 2);
    lemma_split_bytes(b0 as u32, b1 as u32, b2 as u32);
}

/// A position past the significant characters holds no bits of the input.
proof fn lemma_sextet_of_padding(bytes: Seq<u8>, k: int)
    requires
        significant(bytes.len()) <= k < (bytes.len() + 2) / 3 * 4,
    ensures
        sextet(bytes, k) == 0,
{
    let len = bytes.len() as int;
    let g = k / 4;
    assert(len % 3 != 0);
    assert(g == len / 3);
    if len % 3 == 1 {
        assert(k % 4 == 2 || k % 4 == 3);
        assert(group(bytes, g) == byte_at(bytes, 3 * g) * 65536);
    } else {
        assert(k % 4 == 3);
        assert(group(bytes, g) == byte_at(bytes, 3 * g) * 65536 + byte_at(bytes, 3 * g + 1) * 256);
    }
}

/// What stands at position `k` of the unbroken text.
proof fn lemma_unbroken_char(bytes: Seq<u8>, k: int)
    requires
        0 <= k < unbroken(bytes).len(),
    ensures
        value_of(unbroken(bytes)[k]) == sextet(bytes, k),
        is_base64_char(unbroken(bytes)[k]),
        !is_break(unbroken(bytes)[k]),
        unbroken(bytes)[k] != '_',
        (unbroken(bytes)[k] == '=') == (k >= significant(bytes.len())),
{
    lemma_sextet_range(bytes, k);
    if k < significant(bytes.len()) {
        lemma_alphabet_value(sextet(bytes, k));
    } else {
        lemma_sextet_of_padding(bytes, k);
    }
}

/// Decoding the unbroken text gives the input back.
proof fn lemma_decode_unbroken(bytes: Seq<u8>)
    ensures
        decode(unbroken(bytes)) == bytes,
{
    let text = unbroken(bytes);
    let len = bytes.len() as int;
    let chars = text.len() as int;
    assert(chars == (len + 2) / 3 * 4);
    if chars >= 1 {
        lemma_unbroken_char(bytes, chars - 1);
    }
    if chars >= 2 {
        lemma_unbroken_char(bytes, chars - 2);
    }
    assert(padding(text) == (if len % 3 == 0 {
        0int
    } else {
        3 - len % 3
    }));
    assert(decode(text).len() == len);
    assert forall|i: int| 0 <= i < len implies decode(text)[i] == bytes[i] by {
        lemma_decoded_byte(bytes, i);
    }
    assert(decode(text) =~= bytes);
}

/// The number of characters of the text among the first `p` of the broken text.
spec fn kept(p: int) -> int {
    76 * (p / 78) + (if p % 78 < 76 {
        p % 78
    } else {
        76
    })
}

/// Stripping the first `p` characters of the broken text gives a prefix of the text.
proof fn lemma_strip_prefix(text: Seq<char>, p: int)
    requires
        forall|i: int| 0 <= i < text.len() ==> !is_break(#[trigger] text[i]),
        0 <= p <= break_lines(text).len(),
    ensures
        0 <= kept(p) <= text.len(),
        strip_breaks(break_lines(text).take(p)) == text.take(kept(p)),
    decreases p,
{
    reveal(Seq::filter);
    let broken = break_lines(text);
    let keep = |c: char| !is_break(c);
    if p == 0 {
        assert(broken.take(0).len() == 0);
        assert(strip_breaks(broken.take(p)) =~= text.take(0));
    } else {
        lemma_strip_prefix(text, p - 1);
        let before = broken.take(p - 1);
        let now = broken.take(p);
        assert(now.drop_last() =~= before);
        assert(now.last() == broken[p - 1]);
        assert(text.len() > 0);
        if (p - 1) % 78 >= 76 {
            assert(is_break(broken[p - 1]));
            assert(kept(p) == kept(p - 1));
            assert(now.filter(keep) == before.filter(keep));
        } else {
            let at = kept(p - 1);
            assert(at == (p - 1) - 2 * ((p - 1) / 78));
            assert(at < text.len());
            assert(broken[p - 1] == text[at]);
            assert(kept(p) == at + 1);
            assert(now.filter(keep) == before.filter(keep).push(text[at]));
            assert(text.take(at).push(text[at]) =~= text.take(at + 1));
        }
    }
}

/// Every character of the encoded text belongs to base64, so `_` is not among them.
pub proof fn lemma_encoded_chars(bytes: Seq<u8>, p: int)
    requires
        0 <= p < mime_base64(bytes).len(),
    ensures
        is_base64_char(mime_base64(bytes)[p]),
        mime_base64(bytes)[p] != '_',
{
    let text = unbroken(bytes);
    if p % 78 < 76 {
        let k = p - 2 * (p / 78);
        assert(0 <= k < text.len());
        lemma_unbroken_char(bytes, k);
    }
}

/// Decoding the encoded text, once its line breaks are taken out, gives the
/// encoded bytes back unchanged.
pub proof fn lemma_base64_round_trip(bytes: Seq<u8>)
    ensures
        decode(strip_breaks(mime_base64(bytes))) == bytes,
{
    let text = unbroken(bytes);
    let broken = break_lines(text);
    assert forall|i: int| 0 <= i < text.len() implies !is_break(#[trigger] text[i]) by {
        lemma_unbroken_char(bytes, i);
    }
    lemma_strip_prefix(text, broken.len() as int);
    assert(broken.take(broken.len() as int) =~= broken);
    assert(kept(broken.len() as int) == text.len());
    assert(text.take(text.len() as int) =~= text);
    lemma_decode_unbroken(bytes);
}

} // verus!
