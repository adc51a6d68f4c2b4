use vstd::prelude::*;
use crate::key::{KeyMaterial, KEY_LEN};
use aes::Aes128;
use aes::cipher::KeyInit;
use aes::cipher::generic_array::GenericArray;
use xts_mode::{Xts128, get_tweak_default};

verus! {

/// Smallest buffer the cipher accepts: one full cipher block.
pub const MIN_PATTERN_LEN: usize = 16;

/// What XTS-AES-128 encryption of `data`, taken as one sector with tweak
/// index 0, yields under the 32-byte `key`.
pub uninterp spec fn xts_encrypted(key: Seq<u8>, data: Seq<u8>) -> Seq<u8>;

/// What XTS-AES-128 decryption of `data`, taken as one sector with tweak
/// index 0, yields under the 32-byte `key`.
pub uninterp spec fn xts_decrypted(key: Seq<u8>, data: Seq<u8>) -> Seq<u8>;

/// `n` zero bytes.
pub open spec fn zero_block(n: nat) -> Seq<u8> {
    Seq::new(n, |i: int| 0u8)
}

/// The fill pattern: `n` zero bytes encrypted under `key`.
pub open spec fn fill_pattern(key: Seq<u8>, n: nat) -> Seq<u8> {
    xts_encrypted(key, zero_block(n))
}

/// Relies on xts_mode::Xts128::encrypt_area over two aes::Aes128 ciphers
/// (built by Aes128::new) keyed with the first and last 16 key bytes, the
/// whole area one sector with the default tweak of index 0; it keeps the
/// length and panics on a sector under 16 bytes.
#[verifier::external_body]
fn xts_encrypt_sector(key: &[u8], area: &mut Vec<u8>)
    requires
        key@.len() == KEY_LEN,
        old(area)@.len() >= MIN_PATTERN_LEN,
    ensures
        final(area)@ == xts_encrypted(key@, old(area)@),
        final(area)@.len() == old(area)@.len(),
{
    let cipher_1 = Aes128::new(GenericArray::from_slice(&key[..16]));
    let cipher_2 = Aes128::new(GenericArray::from_slice(&key[16..]));
    let sector_size = area.len();
    Xts128::<Aes128>::new(cipher_1, cipher_2).encrypt_area(area, sector_size, 0, get_tweak_default);
}

/// Relies on xts_mode::Xts128::decrypt_area, set up as in
/// `xts_encrypt_sector`: it undoes encrypt_area on a sector of the same length
/// under the same key, as the crate's documented examples show.
#[verifier::external_body]
fn xts_decrypt_sector(key: &[u8], area: &mut Vec<u8>)
    requires
        key@.len() == KEY_LEN,
        old(area)@.len() >= MIN_PATTERN_LEN,
    ensures
        final(area)@ == xts_decrypted(key@, old(area)@),
        final(area)@.len() == old(area)@.len(),
        forall|p: Seq<u8>|
            p.len() == old(area)@.len() && #[trigger] xts_encrypted(key@, p) == old(area)@
                ==> final(area)@ == p,
{
    let cipher_1 = Aes128::new(GenericArray::from_slice(&key[..16]));
    let cipher_2 = Aes128::new(GenericArray::from_slice(&key[16..]));
    let sector_size = area.len();
    Xts128::<Aes128>::new(cipher_1, cipher_2).decrypt_area(area, sector_size, 0, get_tweak_default);
}

/// Produces and reverses the reproducible fill pattern of one key.
pub struct PatternEngine {
    key: KeyMaterial,
}

impl View for PatternEngine {
    type V = Seq<u8>;

    closed spec fn view(&self) -> Seq<u8> {
        self.key@
    }
}

impl PatternEngine {
    pub fn new(key: KeyMaterial) -> (r: PatternEngine)
        ensures
            r@ == key@,
    {
        PatternEngine { key }
    }

    /// The key bytes.
    pub fn key_bytes(&self) -> (r: &[u8])
        ensures
            r@ == self@,
            r@.len() == KEY_LEN,
    {
        self.key.as_bytes()
    }

    /// Turns an all-zero buffer into the fill pattern. The result depends on
    /// the key and the buffer's length alone.
    pub fn fill(&self, buffer: &mut Vec<u8>)
        requires
            old(buffer)@ == zero_block(old(buffer)@.len()),
            old(buffer)@.len() >= MIN_PATTERN_LEN,
        ensures
            final(buffer)@ == fill_pattern(self@, old(buffer)@.len()),
            final(buffer)@.len() == old(buffer)@.len(),
    {
        xts_encrypt_sector(self.key.as_bytes(), buffer);
    }

    /// Reverses `fill`: decrypts the buffer in place, so that the fill
    /// pattern of the same length comes back as zero bytes.
    pub fn invert(&self, buffer: &mut Vec<u8>)
        requires
            old(buffer)@.len() >= MIN_PATTERN_LEN,
        ensures
            final(buffer)@ == xts_decrypted(self@, old(buffer)@),
            final(buffer)@.len() == old(buffer)@.len(),
            old(buffer)@ == fill_pattern(self@, old(buffer)@.len()) ==> final(buffer)@ == zero_block(
                old(buffer)@.len(),
            ),
    {
        let ghost n = buffer@.len();
        xts_decrypt_sector(self.key.as_bytes(), buffer);
        assert(old(buffer)@ == fill_pattern(self@, n) ==> xts_encrypted(self@, zero_block(n)) == old(buffer)@);
    }
}

} // verus!
