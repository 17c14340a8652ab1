//! Deterministic short names: a 64-bit multiplicative hash of a string's bytes,
//! written in base 62 over an alphanumeric alphabet.
use vstd::prelude::*;
use crate::text::{is_ascii_alnum, string_of};
use vstd::string::StringSliceAdditionalSpecFns;
use vstd::utf8::encode_utf8;

verus! {

/// Number of symbols in the name alphabet.
pub const ALPHANUMERIC_LEN: u64 = 62;

/// Starting value of the hash.
pub const SEED: u64 = 5381;

/// The `n`-th symbol of the alphabet `a..z A..Z 0..9`.
pub open spec fn alpha_char(n: u64) -> char {
    if n < 26 {
        ((97 + n) as u8) as char
    } else if n < 52 {
        ((65 + (n - 26)) as u8) as char
    } else {
        ((48 + (n - 52)) as u8) as char
    }
}

/// One step of the hash: multiply by 33 modulo 2^64, then mix in a byte.
pub open spec fn hash_step(h: u64, b: u8) -> u64 {
    h.wrapping_mul(33) ^ (b as u64)
}

/// The hash of `b` taken back to front from `seed`: the last byte is mixed in first.
pub open spec fn back_hash(seed: u64, b: Seq<u8>) -> u64
    decreases b.len(),
{
    if b.len() == 0 {
        seed
    } else {
        hash_step(back_hash(seed, b.subrange(1, b.len() as int)), b[0])
    }
}

/// The full hash: the back-to-front hash, multiplied once more and folded with the length.
pub open spec fn cipher_of(seed: u64, b: Seq<u8>) -> u64 {
    back_hash(seed, b).wrapping_mul(33) ^ (b.len() as u64)
}

/// `x` written in base 62, most significant symbol first, reducing until the
/// value is exhausted.
pub open spec fn base62(x: u64) -> Seq<char>
    decreases x,
{
    if x >= 62 {
        base62(x / 62).push(alpha_char(x % 62))
    } else {
        seq![alpha_char(x % 62)]
    }
}

/// The name generated for the bytes `b`: the hash in base 62, or for empty
/// input the single symbol of the hash's last base-62 digit.
pub open spec fn class_name(b: Seq<u8>) -> Seq<char> {
    if b.len() == 0 {
        seq![alpha_char(cipher_of(SEED, b) % 62)]
    } else {
        base62(cipher_of(SEED, b))
    }
}

fn cipher(seed: u64, s: &str) -> (r: u64)
    ensures
        r == cipher_of(seed, s.spec_bytes()),
{
    let bytes = s.as_bytes();
    let n = bytes.len();
    let mut i: usize = n;
    let mut hash: u64 = seed;
    while i > 0
        invariant
            i <= n,
            n == bytes@.len(),
            hash == back_hash(seed, bytes@.subrange(i as int, n as int)),
        decreases i,
    {
        i -= 1;
        let ghost tail = bytes@.subrange(i as int, n as int);
        assert(tail.subrange(1, tail.len() as int) =~= bytes@.subrange(i + 1, n as int));
        hash = hash.wrapping_mul(33) ^ bytes[i] as u64;
    }
    assert(bytes@.subrange(0, n as int) =~= bytes@);
    hash.wrapping_mul(33) ^ n as u64
}

fn alphanumeric(n: u64) -> (r: char)
    requires
        n < 62,
    ensures
        r == alpha_char(n),
{
    if n < 26 {
        ((97 + n) as u8) as char
    } else if n < 52 {
        ((65 + (n - 26)) as u8) as char
    } else {
        ((48 + (n - 52)) as u8) as char
    }
}

/// The name generated for a string: the hash is taken over its UTF-8 bytes.
pub open spec fn name_of(s: Seq<char>) -> Seq<char> {
    class_name(encode_utf8(s))
}

/// Generates the short name of a string: the same string always gives the same
/// name, and the empty string gets a single-symbol name.
pub fn classinator(s: &str) -> (r: String)
    ensures
        r@ == name_of(s@),
        r@ == class_name(s.spec_bytes()),
        s@.len() == 0 ==> r@.len() == 1,
{
    let code = cipher(SEED, s);
    if s.as_bytes().len() == 0 {
        let c = alphanumeric(code % ALPHANUMERIC_LEN);
        let only = vec![c];
        assert(only@ =~= seq![c]);
        return string_of(&only);
    }
    let mut x: u64 = code;
    let mut name: Vec<char> = Vec::new();
    while x >= ALPHANUMERIC_LEN
        invariant
            base62(code) == base62(x) + name@,
        decreases x,
    {
        let c = alphanumeric(x % ALPHANUMERIC_LEN);
        name.insert(0, c);
        assert(base62(x) == base62(x / 62).push(c));
        assert(base62(x / 62) + name@ =~= base62(x) + name@.subrange(1, name@.len() as int));
        x = x / ALPHANUMERIC_LEN;
    }
    let c = alphanumeric(x % ALPHANUMERIC_LEN);
    name.insert(0, c);
    assert(name@ =~= base62(x) + name@.subrange(1, name@.len() as int));
    string_of(&name)
}

/// The generated name depends on the string alone: two calls on the same
/// string give the same name, which is never empty and uses only ASCII letters
/// and digits.
pub proof fn lemma_classinator_deterministic(s: &str, first: Seq<char>, second: Seq<char>)
    requires
        first == class_name(s.spec_bytes()),
        second == class_name(s.spec_bytes()),
    ensures
        first == second,
        first.len() >= 1,
        forall|i: int| 0 <= i < first.len() ==> is_ascii_alnum(#[trigger] first[i]),
{
    lemma_base62_alnum(cipher_of(SEED, s.spec_bytes()));
    lemma_alpha_char_alnum(cipher_of(SEED, s.spec_bytes()) % 62);
}

proof fn lemma_base62_alnum(x: u64)
    ensures
        base62(x).len() >= 1,
        forall|i: int| 0 <= i < base62(x).len() ==> is_ascii_alnum(#[trigger] base62(x)[i]),
    decreases x,
{
    lemma_alpha_char_alnum(x % 62);
    if x >= 62 {
        lemma_base62_alnum(x / 62);
        let s = base62(x / 62).push(alpha_char(x % 62));
        assert forall|i: int| 0 <= i < s.len() implies is_ascii_alnum(#[trigger] s[i]) by {
            if i < s.len() - 1 {
                assert(s[i] == base62(x / 62)[i]);
            }
        }
    }
}

proof fn lemma_alpha_char_alnum(n: u64)
    requires
        n < 62,
    ensures
        is_ascii_alnum(alpha_char(n)),
{
}

} // verus!
