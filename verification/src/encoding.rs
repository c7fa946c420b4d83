//! How a URI becomes a token: by repeated hashing, or by a salted reversible
//! obfuscation of its bytes.

use crate::alphabet::symbols;
use crate::model::Text;
use std::collections::hash_map::DefaultHasher;
use vstd::prelude::*;
use vstd::std_specs::hash::DefaultHasherAdditionalSpecFns;
use vstd::utf8::encode_utf8;

verus! {

/// The token length of the hash strategy where none is configured.
pub const DEFAULT_HASH_LEN: usize = 12;

/// The shortest token length that the hash strategy accepts.
pub const MIN_HASH_LEN: usize = 6;

/// The most bytes that the obfuscation strategy takes in one URI: with more,
/// the sum that the obfuscation forms over them could leave 64 bits.
pub const MAX_OBFUSCATED_LEN: u64 = 0x00FF_FFFF_FFFF_FFFF;

/// The strategy that turns URIs into tokens, chosen once at startup.
pub enum Encoding {
    /// Non-reversible: `length` symbols, each drawn from a running hash of
    /// the URI's bytes.
    Hash { length: usize },
    /// Reversible in principle: the URI's bytes, obfuscated under `salt`.
    Obfuscation { salt: String },
}

/// The hasher's input after the seed has been written `times` times.
pub open spec fn writes(seed: Seq<u8>, times: nat) -> Seq<Seq<u8>> {
    Seq::new(times, |j: int| seed)
}

/// The values of the hash strategy: the value at position `i` is the digest,
/// modulo 64, of a hasher into which the seed has been written `i + 1` times.
pub open spec fn hash_values(seed: Seq<u8>, length: nat) -> Seq<u8> {
    Seq::new(length, |i: int| (DefaultHasher::spec_finish(writes(seed, (i + 1) as nat)) % 64) as u8)
}

/// The token that the hash strategy gives a URI.
pub open spec fn hash_token(uri: Text, length: nat) -> Text {
    symbols(hash_values(encode_utf8(uri), length))
}

/// The bytes of a URI, each as a 64-bit value.
pub open spec fn widened(bytes: Seq<u8>) -> Seq<u64> {
    Seq::new(bytes.len(), |i: int| bytes[i] as u64)
}

/// The hashid that the obfuscation gives a sequence of values under a salt,
/// with its alphabet, separators and minimum length left at their defaults.
pub uninterp spec fn hashid(salt: Seq<char>, values: Seq<u64>) -> Seq<char>;

/// The token that the obfuscation strategy gives a URI.
pub open spec fn obfuscated_token(salt: Text, uri: Text) -> Text {
    hashid(salt, widened(encode_utf8(uri)))
}

/// The token of a URI under a strategy.
pub open spec fn token_of(encoding: Encoding, uri: Text) -> Text {
    match encoding {
        Encoding::Hash { length } => hash_token(uri, length as nat),
        Encoding::Obfuscation { salt } => obfuscated_token(salt@, uri),
    }
}

/// Whether a strategy can take a URI: the obfuscation has a limit on its
/// length in bytes, the hash strategy has none.
pub open spec fn encodable(encoding: Encoding, uri: Text) -> bool {
    encoding is Obfuscation ==> encode_utf8(uri).len() <= MAX_OBFUSCATED_LEN
}

/// An ASCII letter or digit.
pub open spec fn alphanumeric(c: char) -> bool {
    let n = c as u32;
    48 <= n <= 57 || 65 <= n <= 90 || 97 <= n <= 122
}

/// Calls `harsh::Harsh::encode` on an encoder built by
/// `harsh::HarshBuilder::build` from the salt alone. The builder fails only
/// on a custom alphabet or custom separators, which are left at their
/// defaults here, so the hashid is a function of the salt and the values;
/// it is made of characters of the default alphabet, which are ASCII letters
/// and digits. Longer inputs are left out because the encoder adds up one
/// term below 256 for each value in a `u64`.
#[verifier::external_body]
pub(crate) fn hashid_of(salt: &str, values: &Vec<u64>) -> (token: String)
    requires
        values@.len() <= MAX_OBFUSCATED_LEN,
        forall|i: int| 0 <= i < values@.len() ==> values@[i] < 256,
    ensures
        token@ == hashid(salt@, values@),
        forall|i: int| 0 <= i < token@.len() ==> alphanumeric(#[trigger] token@[i]),
{
    match harsh::Harsh::builder().salt(salt).build() {
        Ok(encoder) => encoder.encode(values),
        Err(_) => String::new(),
    }
}

} // verus!
