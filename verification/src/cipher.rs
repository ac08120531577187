//! The AES-256 block primitive, as provided by the `aes` crate.
//!
//! Nothing in this module is proved: the two functions below call the
//! outside cipher and their contracts are taken on trust.

use vstd::prelude::*;
use aes::cipher::{BlockDecrypt, BlockEncrypt, KeyInit};
use aes::cipher::generic_array::GenericArray;
use aes::Aes256;

verus! {

/// Width of a cipher block in bytes.
pub const BLOCK_SIZE: usize = 16;

/// Width of a cipher key in bytes.
pub const KEY_SIZE: usize = 32;

/// The AES-256 encryption of one 16-byte `block` under a 32-byte `key`.
pub uninterp spec fn aes256_encrypt_block(key: Seq<u8>, block: Seq<u8>) -> [u8; 16];

/// The AES-256 decryption of one 16-byte `block` under a 32-byte `key`.
pub uninterp spec fn aes256_decrypt_block(key: Seq<u8>, block: Seq<u8>) -> [u8; 16];

/// Calls `Aes256::new` and `BlockEncrypt::encrypt_block` of the `aes` crate.
///
/// Trusted: the result is the AES-256 encryption of `block` under `key`.
#[verifier::external_body]
pub(crate) fn encrypt_block(key: &[u8; 32], block: &[u8; 16]) -> (out: [u8; 16])
    ensures
        out == aes256_encrypt_block(key@, block@),
{
    let cipher = Aes256::new(GenericArray::from_slice(key));
    let mut buffer = GenericArray::clone_from_slice(block);
    cipher.encrypt_block(&mut buffer);
    buffer.into()
}

/// Calls `Aes256::new` and `BlockDecrypt::decrypt_block` of the `aes` crate.
///
/// Trusted: the result is the AES-256 decryption of `block` under `key`, and
/// decryption undoes encryption: whenever `block` is the encryption of some
/// 16-byte `plain` under the same key, the result is that `plain`.
#[verifier::external_body]
pub(crate) fn decrypt_block(key: &[u8; 32], block: &[u8; 16]) -> (out: [u8; 16])
    ensures
        out == aes256_decrypt_block(key@, block@),
        forall|plain: Seq<u8>|
            plain.len() == 16 && (#[trigger] aes256_encrypt_block(key@, plain))@ == block@
                ==> out@ == plain,
{
    let cipher = Aes256::new(GenericArray::from_slice(key));
    let mut buffer = GenericArray::clone_from_slice(block);
    cipher.decrypt_block(&mut buffer);
    buffer.into()
}

} // verus!
