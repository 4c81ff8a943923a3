//! Short identifiers: a random 32-bit number, written in decimal and encoded
//! with the URL-safe base64 alphabet without padding.

use vstd::prelude::*;

verus! {

/// The ASCII decimal digits of `n`, most significant first.
pub open spec fn decimal(n: nat) -> Seq<u8>
    decreases n,
{
    if n < 10 {
        seq![(48 + n) as u8]
    } else {
        decimal(n / 10).push((48 + n % 10) as u8)
    }
}

/// The character of the URL-safe base64 alphabet for a six-bit value.
pub open spec fn url_safe_char(v: nat) -> char {
    if v < 26 {
        ((65 + v) as u8) as char
    } else if v < 52 {
        ((97 + v - 26) as u8) as char
    } else if v < 62 {
        ((48 + v - 52) as u8) as char
    } else if v == 62 {
        '-'
    } else {
        '_'
    }
}

/// URL-safe base64 without padding: each group of three bytes gives four
/// characters; a last group of one or two bytes gives two or three.
pub open spec fn base64_url_no_pad(b: Seq<u8>) -> Seq<char>
    decreases b.len(),
{
    if b.len() == 0 {
        Seq::empty()
    } else if b.len() == 1 {
        seq![url_safe_char(b[0] as nat / 4), url_safe_char((b[0] as nat % 4) * 16)]
    } else if b.len() == 2 {
        seq![
            url_safe_char(b[0] as nat / 4),
            url_safe_char((b[0] as nat % 4) * 16 + b[1] as nat / 16),
            url_safe_char((b[1] as nat % 16) * 4),
        ]
    } else {
        seq![
            url_safe_char(b[0] as nat / 4),
            url_safe_char((b[0] as nat % 4) * 16 + b[1] as nat / 16),
            url_safe_char((b[1] as nat % 16) * 4 + b[2] as nat / 64),
            url_safe_char(b[2] as nat % 64),
        ] + base64_url_no_pad(b.subrange(3, b.len() as int))
    }
}

/// A character of the URL-safe base64 alphabet: a letter, a digit, `-` or `_`.
pub open spec fn is_url_safe(c: char) -> bool {
    ('A' <= c && c <= 'Z') || ('a' <= c && c <= 'z') || ('0' <= c && c <= '9') || c == '-' || c
        == '_'
}

proof fn lemma_url_safe_char(v: nat)
    requires
        v < 64,
    ensures
        is_url_safe(url_safe_char(v)),
{
}

proof fn lemma_base64_url_safe(b: Seq<u8>)
    ensures
        forall|i: int|
            0 <= i < base64_url_no_pad(b).len() ==> is_url_safe(#[trigger] base64_url_no_pad(b)[i]),
    decreases b.len(),
{
    if b.len() > 0 {
        lemma_url_safe_char(b[0] as nat / 4);
        lemma_url_safe_char((b[0] as nat % 4) * 16);
        if b.len() >= 2 {
            lemma_url_safe_char((b[0] as nat % 4) * 16 + b[1] as nat / 16);
            lemma_url_safe_char((b[1] as nat % 16) * 4);
        }
        if b.len() >= 3 {
            lemma_url_safe_char((b[1] as nat % 16) * 4 + b[2] as nat / 64);
            lemma_url_safe_char(b[2] as nat % 64);
            let rest = b.subrange(3, b.len() as int);
            lemma_base64_url_safe(rest);
            let out = base64_url_no_pad(b);
            assert forall|i: int| 0 <= i < out.len() implies is_url_safe(#[trigger] out[i]) by {
                if i >= 4 {
                    assert(out[i] == base64_url_no_pad(rest)[i - 4]);
                }
            }
        }
    }
}

/// The identifier that the number `n` is written as.
pub open spec fn id_of(n: nat) -> Seq<char> {
    base64_url_no_pad(decimal(n))
}

/// Relies on `rand::Rng::gen_range` over `rand::thread_rng()`: a value drawn
/// from the half-open range `0..u32::MAX`.
#[verifier::external_body]
fn random_below_u32_max() -> (r: u32)
    ensures
        r < u32::MAX,
{
    rand::Rng::gen_range(&mut rand::thread_rng(), 0..u32::MAX)
}

/// Relies on `base64::Engine::encode` with `general_purpose::URL_SAFE_NO_PAD`:
/// the URL-safe alphabet, no `=` padding.
#[verifier::external_body]
fn encode_url_safe_no_pad(b: &[u8]) -> (r: String)
    ensures
        r@ == base64_url_no_pad(b@),
{
    base64::Engine::encode(&base64::engine::general_purpose::URL_SAFE_NO_PAD, b)
}

/// Appends the decimal digits of `n` to `out`.
pub fn push_decimal(n: u32, out: &mut Vec<u8>)
    ensures
        final(out)@ == old(out)@ + decimal(n as nat),
    decreases n,
{
    if n >= 10 {
        push_decimal(n / 10, out);
    }
    out.push(48u8 + (n % 10) as u8);
    proof {
        assert(final(out)@ =~= old(out)@ + decimal(n as nat));
    }
}

/// The identifier for the number `n`.
pub fn encode_id(n: u32) -> (r: String)
    ensures
        r@ == id_of(n as nat),
{
    let mut digits: Vec<u8> = Vec::new();
    push_decimal(n, &mut digits);
    proof {
        assert(digits@ =~= decimal(n as nat));
    }
    encode_url_safe_no_pad(digits.as_slice())
}

/// A fresh candidate identifier, drawn at random; not unique by itself.
pub fn generate_id() -> (r: String)
    ensures
        exists|n: nat| n < u32::MAX && r@ == #[trigger] id_of(n),
        forall|i: int| 0 <= i < r@.len() ==> is_url_safe(#[trigger] r@[i]),
{
    let n = random_below_u32_max();
    let r = encode_id(n);
    assert(r@ == id_of(n as nat));
    proof {
        lemma_base64_url_safe(decimal(n as nat));
    }
    r
}

} // verus!
