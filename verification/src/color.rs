//! Deterministic per-interface colors: a short digest of the interface name
//! mapped to an RGB triple, so each interface keeps its color across frames,
//! runs and restarts.

use vstd::prelude::*;
use vstd::utf8::encode_utf8;

verus! {

/// What BLAKE2b with a 3-byte digest returns for a byte string: a function of
/// the input bytes alone.
pub uninterp spec fn blake2b3_of(input: Seq<u8>) -> Seq<u8>;

/// An RGB color.
#[derive(Clone, Copy, PartialEq, Eq, Structural, Debug)]
pub struct Rgb {
    pub red: u8,
    pub green: u8,
    pub blue: u8,
}

/// The color a byte string hashes to: the three digest bytes, in order.
pub open spec fn spec_color_of(input: Seq<u8>) -> Rgb {
    Rgb {
        red: blake2b3_of(input)[0],
        green: blake2b3_of(input)[1],
        blue: blake2b3_of(input)[2],
    }
}

/// Relies on blake2's `Blake2b` parameterized for a 3-byte digest, driven
/// through the `Digest` trait: the digest is a function of the input bytes
/// alone.
#[verifier::external_body]
fn blake2b3(input: &[u8]) -> (digest: [u8; 3])
    ensures
        digest@ == blake2b3_of(input@),
{
    let mut hasher = <blake2::Blake2b<blake2::digest::consts::U3> as blake2::Digest>::new();
    blake2::Digest::update(&mut hasher, input);
    let out = blake2::Digest::finalize(hasher);
    [out[0], out[1], out[2]]
}

/// The stable color of an interface name.
pub fn interface_color(name: &str) -> (c: Rgb)
    ensures
        c == spec_color_of(encode_utf8(name@)),
{
    let digest = blake2b3(name.as_bytes());
    Rgb { red: digest[0], green: digest[1], blue: digest[2] }
}

/// Color assignment is deterministic: equal names get equal colors, on every
/// call and in every run.
pub proof fn lemma_color_deterministic(a: Seq<u8>, b: Seq<u8>)
    requires
        a == b,
    ensures
        spec_color_of(a) == spec_color_of(b),
{
}

} // verus!
