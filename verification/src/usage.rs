//! Usage metering helpers: cache keys and the typed quota windows that
//! carry no floating point.

use sha2::Digest;

use vstd::prelude::*;

use crate::text::chars_string;

verus! {

/// One provider's quota snapshot with integer fields.
#[derive(Clone, Debug)]
pub struct GeminiUsage {
    pub model: String,
    pub used_percent: Option<u32>,
    pub reset_at: Option<String>,
}

/// What SHA-256 digests to: a function of the bytes alone.
pub uninterp spec fn sha256_of(data: Seq<u8>) -> Seq<u8>;

/// Relies on `sha2::Sha256::digest`: the SHA-256 digest of the bytes,
/// thirty-two bytes long.
#[verifier::external_body]
fn sha256_bytes(data: &Vec<u8>) -> (r: Vec<u8>)
    ensures
        r@ == sha256_of(data@),
        r@.len() == 32,
{
    sha2::Sha256::digest(data.as_slice()).to_vec()
}

/// The low hex digit character of a nibble.
pub open spec fn hex_digit(d: int) -> char
    recommends
        0 <= d < 16,
{
    if d < 10 {
        ((48 + d) as u8) as char
    } else {
        ((87 + d) as u8) as char
    }
}

/// Hex rendering of bytes, truncated to `len` characters.
pub open spec fn spec_hex(bytes: Seq<u8>) -> Seq<char>
    decreases bytes.len(),
{
    if bytes.len() == 0 {
        Seq::<char>::empty()
    } else {
        seq![
            hex_digit(bytes[0] as int / 16),
            hex_digit(bytes[0] as int % 16),
        ] + spec_hex(bytes.drop_first())
    }
}

/// The first `len` characters of the bytes' hex rendering.
pub fn hex_prefix(bytes: &Vec<u8>, len: usize) -> (r: String)
    ensures
        r@ == if spec_hex(bytes@).len() <= len {
            spec_hex(bytes@)
        } else {
            spec_hex(bytes@).take(len as int)
        },
{
    let n = bytes.len();
    let mut out: Vec<char> = Vec::new();
    let mut i: usize = 0;
    proof {
        assert(bytes@.skip(0) =~= bytes@);
        assert(Seq::<char>::empty() + spec_hex(bytes@) =~= spec_hex(bytes@));
    }
    while i < n
        invariant
            i <= n,
            n == bytes@.len(),
            out@.len() == 2 * i,
            spec_hex(bytes@) == out@ + spec_hex(bytes@.skip(i as int)),
        decreases n - i,
    {
        proof {
            assert(bytes@.skip(i as int)[0] == bytes@[i as int]);
            assert(bytes@.skip(i as int).drop_first() =~= bytes@.skip(i + 1));
        }
        let ghost prev = out@;
        let ghost rest = spec_hex(bytes@.skip(i + 1));
        let b = bytes[i];
        let hi = b / 16;
        let lo = b % 16;
        let hc = if hi < 10 {
            (48 + hi) as char
        } else {
            (87 + hi) as char
        };
        let lc = if lo < 10 {
            (48 + lo) as char
        } else {
            (87 + lo) as char
        };
        out.push(hc);
        out.push(lc);
        proof {
            assert(out@ =~= prev + seq![hex_digit(b as int / 16), hex_digit(b as int % 16)]);
            assert(prev + (seq![hex_digit(b as int / 16), hex_digit(b as int % 16)] + rest) =~= (prev
                + seq![hex_digit(b as int / 16), hex_digit(b as int % 16)]) + rest);
        }
        i += 1;
    }
    proof {
        assert(bytes@.skip(n as int) =~= Seq::<u8>::empty());
    }
    let cut = crate::utils::truncate_chars(&out, len);
    if out.len() <= len {
        proof {
            assert(crate::utils::spec_truncate(spec_hex(bytes@), len as int) == spec_hex(
                bytes@,
            ));
        }
        return chars_string(&cut);
    }
    // Drop the ellipsis a general truncation would add: the cache key
    // is a bare prefix.
    let mut plain: Vec<char> = Vec::new();
    crate::text::push_range(&mut plain, &out, 0, len);
    proof {
        assert(plain@ =~= spec_hex(bytes@).take(len as int));
    }
    chars_string(&plain)
}

/// The short cache key for an access token: the first sixteen hex
/// characters of its SHA-256 digest.
pub fn hash_token(token: &str) -> (r: String)
    ensures
        r@ == if spec_hex(sha256_of(vstd::utf8::encode_utf8(token@))).len() <= 16 {
            spec_hex(sha256_of(vstd::utf8::encode_utf8(token@)))
        } else {
            spec_hex(sha256_of(vstd::utf8::encode_utf8(token@))).take(16)
        },
{
    let bytes = str_bytes(token);
    let digest = sha256_bytes(&bytes);
    hex_prefix(&digest, 16)
}

/// The UTF-8 bytes of a string.
fn str_bytes(s: &str) -> (r: Vec<u8>)
    ensures
        r@ == vstd::utf8::encode_utf8(s@),
{
    vstd::slice::slice_to_vec(s.as_bytes())
}

} // verus!
