//! BLAKE3 digests of contents, as lower-case hexadecimal text.
use vstd::prelude::*;

use crate::text::Text;

verus! {

/// blake3's incremental hasher.
#[verifier::external_type_specification]
#[verifier::external_body]
pub struct ExHasher(blake3::Hasher);

/// The bytes that a hasher was given so far, in order.
pub uninterp spec fn hasher_input(hasher: blake3::Hasher) -> Seq<u8>;

/// Whether a hasher computes the regular hash of the whole input, without a key,
/// a derivation context or an input offset.
pub uninterp spec fn hasher_is_regular(hasher: blake3::Hasher) -> bool;

/// What blake3 computes of some bytes, as hexadecimal text.
pub uninterp spec fn blake3_hex(bytes: Seq<u8>) -> Seq<char>;

pub open spec fn is_hex_digit(c: char) -> bool {
    '0' <= c <= '9' || 'a' <= c <= 'f'
}

/// `blake3::Hasher::new`: a hasher for the regular hash that was given nothing yet.
#[verifier::external_body]
fn new_hasher() -> (r: blake3::Hasher)
    ensures
        hasher_is_regular(r),
        hasher_input(r) == Seq::<u8>::empty(),
{
    blake3::Hasher::new()
}

/// `blake3::Hasher::update`: the bytes follow what the hasher was given before.
#[verifier::external_body]
fn feed_hasher(hasher: &mut blake3::Hasher, bytes: &[u8])
    requires
        hasher_is_regular(*old(hasher)),
    ensures
        hasher_is_regular(*final(hasher)),
        hasher_input(*final(hasher)) == hasher_input(*old(hasher)) + bytes@,
{
    hasher.update(bytes);
}

/// `blake3::Hasher::finalize` and `blake3::Hash::to_hex`: the digest of the bytes
/// given so far, which is 64 lower-case hexadecimal digits.
#[verifier::external_body]
fn hasher_digest(hasher: &blake3::Hasher) -> (r: String)
    requires
        hasher_is_regular(*hasher),
    ensures
        r@ == blake3_hex(hasher_input(*hasher)),
        r@.len() == 64,
        forall|i: int| 0 <= i < r@.len() ==> is_hex_digit(#[trigger] r@[i]),
{
    hasher.finalize().to_hex().to_string()
}

/// A digest in the making, for contents that are read piece by piece.
pub struct ContentHash {
    hasher: blake3::Hasher,
}

impl View for ContentHash {
    type V = Seq<u8>;

    /// The bytes hashed so far.
    closed spec fn view(&self) -> Seq<u8> {
        hasher_input(self.hasher)
    }
}

impl ContentHash {
    pub closed spec fn is_regular(&self) -> bool {
        hasher_is_regular(self.hasher)
    }

    pub fn new() -> (r: Self)
        ensures
            r.is_regular(),
            r@ == Seq::<u8>::empty(),
    {
        ContentHash { hasher: new_hasher() }
    }

    pub fn update(&mut self, bytes: &[u8])
        requires
            old(self).is_regular(),
        ensures
            final(self).is_regular(),
            final(self)@ == old(self)@ + bytes@,
    {
        feed_hasher(&mut self.hasher, bytes);
    }

    /// The digest of the bytes hashed so far.
    pub fn finish(&self) -> (r: String)
        requires
            self.is_regular(),
        ensures
            r@ == blake3_hex(self@),
            r@.len() == 64,
            forall|i: int| 0 <= i < r@.len() ==> is_hex_digit(#[trigger] r@[i]),
    {
        hasher_digest(&self.hasher)
    }
}

/// The digest of the UTF-8 bytes of a text.
pub open spec fn text_digest(s: Text) -> Text {
    blake3_hex(vstd::utf8::encode_utf8(s))
}

pub(crate) fn digest_of(s: &str) -> (r: String)
    ensures
        r@ == text_digest(s@),
        r@.len() == 64,
        forall|i: int| 0 <= i < r@.len() ==> is_hex_digit(#[trigger] r@[i]),
{
    let mut hash = ContentHash::new();
    hash.update(s.as_bytes());
    assert(hash@ =~= vstd::utf8::encode_utf8(s@));
    hash.finish()
}

} // verus!
