//! Base64 encoding (standard alphabet, `=`-padded), used for the cursor
//! sprite's PNG in `cursorImg` control messages.

use vstd::prelude::*;
use crate::text::string_push;

verus! {

/// The base64 digit for a 6-bit value: `A-Z`, `a-z`, `0-9`, `+`, `/`.
pub open spec fn spec_digit(v: nat) -> char {
    if v < 26 {
        (65 + v) as char
    } else if v < 52 {
        (97 + (v - 26)) as char
    } else if v < 62 {
        (48 + (v - 52)) as char
    } else if v == 62 {
        '+'
    } else {
        '/'
    }
}

/// The 24-bit group `b0 b1 b2` (most significant first).
pub open spec fn group(b0: u8, b1: u8, b2: u8) -> nat {
    (b0 as nat) * 65536 + (b1 as nat) * 256 + (b2 as nat)
}

/// The four output characters for one input chunk of one to three bytes;
/// missing bytes count as zero and their digits become `=`.
pub open spec fn encode_chunk(chunk: Seq<u8>) -> Seq<char> {
    let b0 = chunk[0];
    let b1: u8 = if chunk.len() > 1 { chunk[1] } else { 0 };
    let b2: u8 = if chunk.len() > 2 { chunk[2] } else { 0 };
    let n = group(b0, b1, b2);
    seq![
        spec_digit(n / 262144),
        spec_digit((n / 4096) % 64),
        if chunk.len() > 1 { spec_digit((n / 64) % 64) } else { '=' },
        if chunk.len() > 2 { spec_digit(n % 64) } else { '=' },
    ]
}

/// The base64 text of `bytes`: each 3-byte chunk in order, the last chunk
/// possibly shorter.
pub open spec fn spec_base64(bytes: Seq<u8>) -> Seq<char>
    decreases bytes.len(),
{
    if bytes.len() == 0 {
        seq![]
    } else if bytes.len() <= 3 {
        encode_chunk(bytes)
    } else {
        encode_chunk(bytes.take(3)) + spec_base64(bytes.skip(3))
    }
}

fn digit(v: u32) -> (c: char)
    requires
        v < 64,
    ensures
        c == spec_digit(v as nat),
{
    if v < 26 {
        ((65 + v) as u8) as char
    } else if v < 52 {
        ((97 + (v - 26)) as u8) as char
    } else if v < 62 {
        ((48 + (v - 52)) as u8) as char
    } else if v == 62 {
        '+'
    } else {
        '/'
    }
}

proof fn lemma_base64_split(bytes: Seq<u8>, i: int)
    requires
        0 <= i,
        i % 3 == 0,
        i < bytes.len(),
    ensures
        spec_base64(bytes.skip(i)) == encode_chunk(
            bytes.subrange(i, if i + 3 <= bytes.len() { i + 3 } else { bytes.len() as int }),
        ) + spec_base64(bytes.skip(if i + 3 <= bytes.len() { i + 3 } else { bytes.len() as int })),
{
    let rest = bytes.skip(i);
    let end = if i + 3 <= bytes.len() { i + 3 } else { bytes.len() as int };
    if rest.len() <= 3 {
        assert(rest == bytes.subrange(i, end));
        assert(bytes.skip(end).len() == 0);
        assert(spec_base64(bytes.skip(end)) == Seq::<char>::empty());
        assert(encode_chunk(rest) + Seq::<char>::empty() == encode_chunk(rest));
    } else {
        assert(rest.take(3) == bytes.subrange(i, end));
        assert(rest.skip(3) == bytes.skip(end));
    }
}

fn push_chunk(out: &mut String, chunk: &[u8])
    requires
        1 <= chunk@.len() <= 3,
    ensures
        final(out)@ == old(out)@ + encode_chunk(chunk@),
{
    let chunk_len = chunk.len();
    let b0 = chunk[0];
    let b1: u8 = if chunk_len > 1 { chunk[1] } else { 0 };
    let b2: u8 = if chunk_len > 2 { chunk[2] } else { 0 };
    let n: u32 = (b0 as u32) * 65536 + (b1 as u32) * 256 + (b2 as u32);
    assert(n as nat == group(b0, b1, b2));
    string_push(out, digit(n / 262144));
    string_push(out, digit((n / 4096) % 64));
    string_push(out, if chunk_len > 1 { digit((n / 64) % 64) } else { '=' });
    string_push(out, if chunk_len > 2 { digit(n % 64) } else { '=' });
}

/// Base64 (standard alphabet, `=`-padded) encode.
pub fn base64_encode(bytes: &[u8]) -> (out: String)
    ensures
        out@ == spec_base64(bytes@),
{
    let mut out = String::new();
    let len = bytes.len();
    let mut i: usize = 0;
    assert(bytes@.skip(0) == bytes@);
    assert(out@ + spec_base64(bytes@) =~= spec_base64(bytes@));
    while i < len
        invariant
            len == bytes@.len(),
            i <= len,
            i % 3 == 0 || i == len,
            spec_base64(bytes@) == out@ + spec_base64(bytes@.skip(i as int)),
        decreases len - i,
    {
        let end: usize = if len - i >= 3 { i + 3 } else { len };
        proof {
            lemma_base64_split(bytes@, i as int);
            if end < len {
                assert((i + 3) % 3 == 0) by (nonlinear_arith)
                    requires
                        i % 3 == 0,
                ;
            }
        }
        let ghost before = out@;
        push_chunk(&mut out, vstd::slice::slice_subrange(bytes, i, end));
        assert(out@ + spec_base64(bytes@.skip(end as int)) == before + spec_base64(bytes@.skip(i as int))) by {
            assert(out@ + spec_base64(bytes@.skip(end as int)) =~= before + (encode_chunk(bytes@.subrange(i as int, end as int)) + spec_base64(bytes@.skip(end as int))));
        }
        i = end;
    }
    assert(bytes@.skip(len as int).len() == 0);
    assert(out@ + Seq::<char>::empty() == out@) by { assert(out@ + Seq::<char>::empty() =~= out@); }
    out
}

/// How many `=` characters end the base64 text of `len` bytes.
pub open spec fn padding_len(len: nat) -> nat {
    if len % 3 == 1 {
        2
    } else if len % 3 == 2 {
        1
    } else {
        0
    }
}

proof fn lemma_digit_is_not_padding(v: nat)
    ensures
        spec_digit(v) != '=',
{
    if v < 26 {
        assert((65 + v) as char as int == 65 + v);
    } else if v < 52 {
        assert((97 + (v - 26)) as char as int == 97 + (v - 26));
    } else if v < 62 {
        assert((48 + (v - 52)) as char as int == 48 + (v - 52));
    }
}

proof fn lemma_chunk_shape(chunk: Seq<u8>)
    requires
        1 <= chunk.len() <= 3,
    ensures
        encode_chunk(chunk).len() == 4,
        encode_chunk(chunk)[0] != '=',
        encode_chunk(chunk)[1] != '=',
        (encode_chunk(chunk)[2] == '=') == (chunk.len() == 1),
        (encode_chunk(chunk)[3] == '=') == (chunk.len() <= 2),
{
    let b0 = chunk[0];
    let b1: u8 = if chunk.len() > 1 { chunk[1] } else { 0 };
    let b2: u8 = if chunk.len() > 2 { chunk[2] } else { 0 };
    let n = group(b0, b1, b2);
    lemma_digit_is_not_padding(n / 262144);
    lemma_digit_is_not_padding((n / 4096) % 64);
    lemma_digit_is_not_padding((n / 64) % 64);
    lemma_digit_is_not_padding(n % 64);
}

/// The base64 text of `bytes` is four characters for every started group of
/// three bytes, and ends in exactly the padding its length calls for: two
/// `=` after one leftover byte, one after two, none otherwise; no `=` stands
/// anywhere else.
#[verifier::rlimit(30)]
pub proof fn lemma_base64_length_and_padding(bytes: Seq<u8>)
    ensures
        spec_base64(bytes).len() == 4 * ((bytes.len() + 2) / 3),
        forall|i: int|
            0 <= i < spec_base64(bytes).len() - padding_len(bytes.len()) ==> #[trigger] spec_base64(bytes)[i] != '=',
        forall|i: int|
            spec_base64(bytes).len() - padding_len(bytes.len()) <= i < spec_base64(bytes).len()
                ==> #[trigger] spec_base64(bytes)[i] == '=',
    decreases bytes.len(),
{
    let out = spec_base64(bytes);
    if bytes.len() == 0 {
    } else if bytes.len() <= 3 {
        lemma_chunk_shape(bytes);
        assert(out == encode_chunk(bytes));
    } else {
        let rest = bytes.skip(3);
        let c = encode_chunk(bytes.take(3));
        lemma_chunk_shape(bytes.take(3));
        lemma_base64_length_and_padding(rest);
        assert(out == c + spec_base64(rest));
        assert(padding_len(bytes.len()) == padding_len(rest.len()));
        assert(4 * ((bytes.len() + 2) / 3) == 4 + 4 * ((rest.len() + 2) / 3));
        assert forall|i: int| 0 <= i < out.len() - padding_len(bytes.len()) implies #[trigger] out[i] != '=' by {
            if i >= 4 {
                assert(out[i] == spec_base64(rest)[i - 4]);
            } else {
                assert(out[i] == c[i]);
            }
        }
        assert forall|i: int| out.len() - padding_len(bytes.len()) <= i < out.len() implies #[trigger] out[i] == '=' by {
            assert(out[i] == spec_base64(rest)[i - 4]);
        }
    }
}

/// The 6-bit value a base64 digit stands for (`=` and any other character
/// count as zero).
pub open spec fn digit_value(c: char) -> nat {
    if 'A' <= c <= 'Z' {
        (c as int - 65) as nat
    } else if 'a' <= c <= 'z' {
        (c as int - 97 + 26) as nat
    } else if '0' <= c <= '9' {
        (c as int - 48 + 52) as nat
    } else if c == '+' {
        62
    } else if c == '/' {
        63
    } else {
        0
    }
}

/// The bytes one four-character group of base64 text stands for: three,
/// less one for each trailing `=`.
pub open spec fn decode_chunk(c: Seq<char>) -> Seq<u8> {
    let n = digit_value(c[0]) * 262144 + digit_value(c[1]) * 4096 + digit_value(c[2]) * 64 + digit_value(c[3]);
    let bytes = seq![(n / 65536) as u8, ((n / 256) % 256) as u8, (n % 256) as u8];
    if c[2] == '=' {
        bytes.take(1)
    } else if c[3] == '=' {
        bytes.take(2)
    } else {
        bytes
    }
}

/// The bytes base64 text stands for, four characters at a time.
pub open spec fn spec_base64_decode(text: Seq<char>) -> Seq<u8>
    decreases text.len(),
{
    if text.len() < 4 {
        seq![]
    } else {
        decode_chunk(text.take(4)) + spec_base64_decode(text.skip(4))
    }
}

proof fn lemma_digit_value(v: nat)
    requires
        v < 64,
    ensures
        digit_value(spec_digit(v)) == v,
{
    if v < 26 {
        assert((65 + v) as char as int == 65 + v);
    } else if v < 52 {
        assert((97 + (v - 26)) as char as int == 97 + (v - 26));
    } else if v < 62 {
        assert((48 + (v - 52)) as char as int == 48 + (v - 52));
    }
}

proof fn lemma_group_digits(b0: u32, b1: u32, b2: u32, n: u32)
    by (bit_vector)
    requires
        b0 < 256,
        b1 < 256,
        b2 < 256,
        n == b0 * 65536 + b1 * 256 + b2,
    ensures
        n / 262144 < 64,
        (n / 262144) * 262144 + ((n / 4096) % 64) * 4096 + ((n / 64) % 64) * 64 + n % 64 == n,
        n / 65536 == b0,
        (n / 256) % 256 == b1,
        n % 256 == b2,
        b2 == 0 ==> n % 64 == 0,
        b1 == 0 && b2 == 0 ==> (n / 64) % 64 == 0,
{
}

proof fn lemma_decode_chunk(chunk: Seq<u8>)
    requires
        1 <= chunk.len() <= 3,
    ensures
        decode_chunk(encode_chunk(chunk)) == chunk,
{
    let b0 = chunk[0];
    let b1: u8 = if chunk.len() > 1 { chunk[1] } else { 0 };
    let b2: u8 = if chunk.len() > 2 { chunk[2] } else { 0 };
    let n = group(b0, b1, b2);
    let m: u32 = ((b0 as u32) * 65536 + (b1 as u32) * 256 + (b2 as u32)) as u32;
    assert(m as nat == n);
    lemma_group_digits(b0 as u32, b1 as u32, b2 as u32, m);
    let c = encode_chunk(chunk);
    lemma_digit_value(n / 262144);
    lemma_digit_value((n / 4096) % 64);
    lemma_digit_value((n / 64) % 64);
    lemma_digit_value(n % 64);
    lemma_digit_is_not_padding((n / 64) % 64);
    lemma_digit_is_not_padding(n % 64);
    assert(digit_value('=') == 0);
    let d = digit_value(c[0]) * 262144 + digit_value(c[1]) * 4096 + digit_value(c[2]) * 64 + digit_value(c[3]);
    assert(d == n);
    assert(decode_chunk(c) =~= chunk);
}

/// Decoding the base64 text of any bytes gives back exactly those bytes.
pub proof fn lemma_base64_decodes_back(bytes: Seq<u8>)
    ensures
        spec_base64_decode(spec_base64(bytes)) == bytes,
    decreases bytes.len(),
{
    if bytes.len() == 0 {
        assert(spec_base64(bytes).len() == 0);
        assert(bytes =~= seq![]);
    } else if bytes.len() <= 3 {
        let c = encode_chunk(bytes);
        lemma_decode_chunk(bytes);
        assert(c.take(4) =~= c);
        assert(c.skip(4).len() == 0);
        assert(spec_base64_decode(c.skip(4)) == Seq::<u8>::empty());
        assert(spec_base64_decode(c) =~= decode_chunk(c) + Seq::<u8>::empty());
    } else {
        let rest = bytes.skip(3);
        let c = encode_chunk(bytes.take(3));
        let t = c + spec_base64(rest);
        lemma_decode_chunk(bytes.take(3));
        lemma_base64_decodes_back(rest);
        lemma_base64_length_and_padding(rest);
        assert(t.take(4) =~= c);
        assert(t.skip(4) =~= spec_base64(rest));
        assert(bytes =~= bytes.take(3) + rest);
    }
}

} // verus!
