//! The block codec: whole byte strings to ciphertext and back.
//!
//! A plaintext is cut into 16-byte blocks, the last of which is always a
//! padding block: the remaining `len % 16` bytes followed by zeros (sixteen
//! zeros when nothing remains). Each block is encrypted on its own, with no
//! chaining. Decryption reverses this and strips every trailing zero byte of
//! the last block, so a plaintext whose last partial block ends in zero
//! bytes does not survive the round trip.

use vstd::prelude::*;
use crate::cipher::{aes256_decrypt_block, aes256_encrypt_block, decrypt_block, encrypt_block};
use crate::key::DerivedKey;

verus! {

/// Why a ciphertext cannot be decrypted.
#[derive(Debug, Clone, Copy, PartialEq, Eq, Structural)]
pub enum CodecError {
    /// The ciphertext holds no block at all.
    Empty,
    /// The ciphertext ends in the middle of a block.
    TruncatedBlock,
}

/// `n` zero bytes.
pub open spec fn zeros(n: nat) -> Seq<u8> {
    Seq::new(n, |i: int| 0u8)
}

/// The number of zero bytes that padding appends to a plaintext of `len` bytes.
pub open spec fn padding_len(len: nat) -> nat {
    (16 - len % 16) as nat
}

/// The plaintext followed by its zero padding: always a positive multiple
/// of 16 bytes long.
pub open spec fn padded(plain: Seq<u8>) -> Seq<u8> {
    plain + zeros(padding_len(plain.len()))
}

/// Block number `i` of a byte string.
pub open spec fn block_at(bytes: Seq<u8>, i: int) -> Seq<u8> {
    bytes.subrange(16 * i, 16 * i + 16)
}

/// Every block of `bytes` encrypted on its own; `bytes` is a whole number
/// of blocks.
pub open spec fn encrypt_blocks(key: Seq<u8>, bytes: Seq<u8>) -> Seq<u8> {
    Seq::new(bytes.len(), |j: int| aes256_encrypt_block(key, block_at(bytes, j / 16))[j % 16])
}

/// Every block of `bytes` decrypted on its own; `bytes` is a whole number
/// of blocks.
pub open spec fn decrypt_blocks(key: Seq<u8>, bytes: Seq<u8>) -> Seq<u8> {
    Seq::new(bytes.len(), |j: int| aes256_decrypt_block(key, block_at(bytes, j / 16))[j % 16])
}

/// `bytes` without its trailing zero bytes.
pub open spec fn stripped(bytes: Seq<u8>) -> Seq<u8>
    decreases bytes.len(),
{
    if bytes.len() > 0 && bytes.last() == 0 {
        stripped(bytes.drop_last())
    } else {
        bytes
    }
}

/// A padded byte string with the trailing zeros of its last block removed.
pub open spec fn unpadded(bytes: Seq<u8>) -> Seq<u8> {
    bytes.subrange(0, bytes.len() - 16) + stripped(bytes.subrange(bytes.len() - 16, bytes.len() as int))
}

/// The ciphertext of `plain` under `key`.
pub open spec fn encrypt_spec(key: Seq<u8>, plain: Seq<u8>) -> Seq<u8> {
    encrypt_blocks(key, padded(plain))
}

/// What decrypting `cipher` under `key` yields.
pub open spec fn decrypt_spec(key: Seq<u8>, cipher: Seq<u8>) -> Result<Seq<u8>, CodecError> {
    if cipher.len() == 0 {
        Err(CodecError::Empty)
    } else if cipher.len() % 16 != 0 {
        Err(CodecError::TruncatedBlock)
    } else {
        Ok(unpadded(decrypt_blocks(key, cipher)))
    }
}

/// The leading whole blocks of a byte string.
pub open spec fn whole_blocks(bytes: Seq<u8>) -> Seq<u8> {
    bytes.subrange(0, bytes.len() - bytes.len() % 16)
}

/// What is left of a byte string behind its whole blocks: fewer than 16 bytes.
pub open spec fn remainder(bytes: Seq<u8>) -> Seq<u8> {
    bytes.subrange(bytes.len() - bytes.len() % 16, bytes.len() as int)
}

/// What is left of `plain` after encryption and decryption: the whole
/// blocks unchanged, the last partial block without its trailing zeros.
pub open spec fn survivor(plain: Seq<u8>) -> Seq<u8> {
    whole_blocks(plain) + stripped(remainder(plain))
}

/// Decryption of the block `cipher` under `key` undoes encryption: it
/// returns whichever 16-byte block encrypts to `cipher`.
pub open spec fn block_inverted(key: Seq<u8>, cipher: Seq<u8>) -> bool {
    forall|plain: Seq<u8>|
        plain.len() == 16 && (#[trigger] aes256_encrypt_block(key, plain))@ == cipher
            ==> aes256_decrypt_block(key, cipher)@ == plain
}

/// The view of a decryption result.
pub open spec fn result_view(result: Result<Vec<u8>, CodecError>) -> Result<Seq<u8>, CodecError> {
    match result {
        Ok(bytes) => Ok(bytes@),
        Err(error) => Err(error),
    }
}

/// Every block of `cipher` is one on which decryption undoes encryption.
pub open spec fn blocks_inverted(key: Seq<u8>, cipher: Seq<u8>) -> bool {
    forall|k: int| 0 <= k < cipher.len() / 16 ==> block_inverted(key, #[trigger] block_at(cipher, k))
}

/// Zero bytes at the end do not change what stripping leaves.
proof fn lemma_stripped_ignores_zeros(bytes: Seq<u8>, n: nat)
    ensures
        stripped(bytes + zeros(n)) == stripped(bytes),
    decreases n,
{
    if n > 0 {
        let longer = bytes + zeros(n);
        assert(longer.drop_last() =~= bytes + zeros((n - 1) as nat));
        lemma_stripped_ignores_zeros(bytes, (n - 1) as nat);
    }
}

/// What stripping leaves is a prefix.
proof fn lemma_stripped_is_prefix(bytes: Seq<u8>)
    ensures
        stripped(bytes).len() <= bytes.len(),
        stripped(bytes) == bytes.subrange(0, stripped(bytes).len() as int),
    decreases bytes.len(),
{
    if bytes.len() > 0 && bytes.last() == 0 {
        lemma_stripped_is_prefix(bytes.drop_last());
    }
}

/// Padding and then removing the padding leaves the survivor of the plaintext.
pub proof fn lemma_unpadded_padded(plain: Seq<u8>)
    ensures
        unpadded(padded(plain)) == survivor(plain),
{
    let full = padded(plain);
    let last = full.subrange(full.len() - 16, full.len() as int);
    assert(last =~= remainder(plain) + zeros(padding_len(plain.len())));
    lemma_stripped_ignores_zeros(remainder(plain), padding_len(plain.len()));
}

/// The length of a ciphertext: the plaintext's length rounded up to the next
/// multiple of 16 that is strictly greater, so never zero.
pub proof fn lemma_encrypt_len(key: Seq<u8>, plain: Seq<u8>)
    ensures
        encrypt_spec(key, plain).len() > 0,
        encrypt_spec(key, plain).len() % 16 == 0,
        plain.len() % 16 == 0 ==> encrypt_spec(key, plain).len() == plain.len() + 16,
        plain.len() % 16 != 0 ==> encrypt_spec(key, plain).len() == plain.len() + (16
            - plain.len() % 16),
        encrypt_spec(key, plain).len() == 16 * (plain.len() / 16 + 1),
{
}

/// A ciphertext that is empty or not a whole number of blocks is rejected,
/// and no other.
pub proof fn lemma_decrypt_rejects(key: Seq<u8>, cipher: Seq<u8>)
    ensures
        decrypt_spec(key, cipher) is Err <==> cipher.len() == 0 || cipher.len() % 16 != 0,
        cipher.len() == 0 <==> decrypt_spec(key, cipher) == Err::<Seq<u8>, CodecError>(
            CodecError::Empty,
        ),
        cipher.len() % 16 != 0 <==> decrypt_spec(key, cipher) == Err::<Seq<u8>, CodecError>(
            CodecError::TruncatedBlock,
        ),
{
}

/// A plaintext survives unchanged if it is a whole number of blocks, or if
/// its last byte is not zero.
pub proof fn lemma_survivor_whole(plain: Seq<u8>)
    requires
        plain.len() % 16 == 0 || plain.last() != 0,
    ensures
        survivor(plain) == plain,
{
    assert(whole_blocks(plain) + remainder(plain) =~= plain);
}

/// A plaintext whose last partial block ends in a zero byte does not
/// survive: what comes back is a strictly shorter prefix of it.
pub proof fn lemma_survivor_lossy(plain: Seq<u8>)
    requires
        plain.len() % 16 != 0,
        plain.last() == 0,
    ensures
        survivor(plain) != plain,
        survivor(plain).len() < plain.len(),
        survivor(plain) == plain.subrange(0, survivor(plain).len() as int),
{
    lemma_stripped_is_prefix(remainder(plain).drop_last());
    lemma_stripped_is_prefix(remainder(plain));
}

/// There is a plaintext that ends in a zero byte and is not recovered.
pub proof fn lemma_lossy_plaintext_exists()
    ensures
        exists|plain: Seq<u8>|
            plain.len() > 0 && plain.last() == 0 && #[trigger] survivor(plain) != plain,
{
    let plain = seq![1u8, 0u8];
    lemma_survivor_lossy(plain);
}

/// Decrypting a ciphertext made by encryption yields the survivor of the
/// plaintext, under any key for which block decryption undoes block
/// encryption on the blocks of that ciphertext.
pub proof fn lemma_decrypt_encrypt(key: Seq<u8>, plain: Seq<u8>)
    requires
        blocks_inverted(key, encrypt_spec(key, plain)),
    ensures
        decrypt_blocks(key, encrypt_spec(key, plain)) == padded(plain),
        decrypt_spec(key, encrypt_spec(key, plain)) == Ok::<Seq<u8>, CodecError>(survivor(plain)),
{
    let full = padded(plain);
    let cipher = encrypt_spec(key, plain);
    let opened = decrypt_blocks(key, cipher);
    assert forall|j: int| 0 <= j < full.len() implies opened[j] == full[j] by {
        let block = block_at(full, j / 16);
        assert(aes256_encrypt_block(key, block)@ =~= block_at(cipher, j / 16));
    }
    lemma_unpadded_padded(plain);
}

/// The round trip: under a key for which block decryption undoes block
/// encryption on the blocks of the ciphertext, a plaintext that is empty or
/// ends in a non-zero byte is recovered exactly.
pub proof fn lemma_round_trip(key: Seq<u8>, plain: Seq<u8>)
    requires
        plain.len() == 0 || plain.last() != 0,
        blocks_inverted(key, encrypt_spec(key, plain)),
    ensures
        decrypt_spec(key, encrypt_spec(key, plain)) == Ok::<Seq<u8>, CodecError>(plain),
{
    lemma_decrypt_encrypt(key, plain);
    lemma_survivor_whole(plain);
}

/// Block `i` of the padded form of `bytes`.
pub(crate) fn padded_block(bytes: &[u8], i: usize) -> (block: [u8; 16])
    requires
        16 * i <= bytes@.len(),
    ensures
        block@ == block_at(padded(bytes@), i as int),
{
    let len: usize = bytes.len();
    let base: usize = 16 * i;
    let rest: usize = len - base;
    let mut block = [0u8; 16];
    let mut j: usize = 0;
    while j < 16
        invariant
            j <= 16,
            base == 16 * i,
            base + rest == bytes@.len(),
            forall|k: int| 0 <= k < j ==> block@[k] == padded(bytes@)[base + k],
        decreases 16 - j,
    {
        if j < rest {
            block[j] = bytes[base + j];
        } else {
            block[j] = 0;
        }
        j += 1;
    }
    block
}

/// Block `i` of `bytes`.
pub(crate) fn whole_block(bytes: &[u8], i: usize) -> (block: [u8; 16])
    requires
        16 * i + 16 <= bytes@.len(),
    ensures
        block@ == block_at(bytes@, i as int),
{
    let len: usize = bytes.len();
    let base: usize = 16 * i;
    let mut block = [0u8; 16];
    let mut j: usize = 0;
    while j < 16
        invariant
            j <= 16,
            base == 16 * i,
            base + 16 <= bytes@.len(),
            forall|k: int| 0 <= k < j ==> block@[k] == bytes@[base + k],
        decreases 16 - j,
    {
        block[j] = bytes[base + j];
        j += 1;
    }
    block
}

/// Appends the first `count` bytes of `block` to `out`.
pub(crate) fn append_prefix(out: &mut Vec<u8>, block: &[u8; 16], count: usize)
    requires
        count <= 16,
    ensures
        final(out)@ == old(out)@ + block@.subrange(0, count as int),
{
    let mut j: usize = 0;
    while j < count
        invariant
            j <= count <= 16,
            out@ == old(out)@ + block@.subrange(0, j as int),
        decreases count - j,
    {
        out.push(block[j]);
        j += 1;
    }
}

/// The number of bytes of `block` that come before its trailing zeros.
pub(crate) fn content_len(block: &[u8; 16]) -> (len: usize)
    ensures
        len <= 16,
        block@.subrange(0, len as int) == stripped(block@),
{
    let mut len: usize = 16;
    assert(block@.subrange(0, 16) =~= block@);
    while len > 0 && block[len - 1] == 0
        invariant
            len <= 16,
            stripped(block@.subrange(0, len as int)) == stripped(block@),
        decreases len,
    {
        assert(block@.subrange(0, len as int).drop_last() =~= block@.subrange(0, len - 1));
        len -= 1;
    }
    len
}

/// Encrypts `plain` under `key`.
///
/// The ciphertext has one block for every 16 bytes of `plain` and one more
/// for what remains, zero-padded; that last block is there even when nothing
/// remains.
pub fn encrypt(key: &DerivedKey, plain: &[u8]) -> (cipher: Vec<u8>)
    ensures
        cipher@ == encrypt_spec(key@, plain@),
        cipher@.len() == plain@.len() + 16 - plain@.len() % 16,
        cipher@.len() % 16 == 0,
        cipher@.len() > 0,
{
    let blocks: usize = plain.len() / 16 + 1;
    let mut cipher: Vec<u8> = Vec::new();
    let mut i: usize = 0;
    while i < blocks
        invariant
            i <= blocks,
            blocks == plain@.len() / 16 + 1,
            cipher@ == encrypt_spec(key@, plain@).subrange(0, 16 * i),
        decreases blocks - i,
    {
        let block = padded_block(plain, i);
        let sealed = encrypt_block(key.as_bytes(), &block);
        append_prefix(&mut cipher, &sealed, 16);
        i += 1;
    }
    cipher
}

/// Decrypts `cipher` under `key`.
///
/// A ciphertext that is empty or not a whole number of blocks is rejected.
/// Otherwise every block is decrypted and the trailing zero bytes of the
/// last one are dropped. Applied to the encryption of a plaintext, this
/// returns the plaintext's survivor: the plaintext itself unless its last
/// partial block ends in zero bytes, which are lost.
pub fn decrypt(key: &DerivedKey, cipher: &[u8]) -> (result: Result<Vec<u8>, CodecError>)
    ensures
        result_view(result) == decrypt_spec(key@, cipher@),
        result is Err <==> cipher@.len() == 0 || cipher@.len() % 16 != 0,
        forall|plain: Seq<u8>|
            cipher@ == #[trigger] encrypt_spec(key@, plain) ==> result_view(result) == Ok::<
                Seq<u8>,
                CodecError,
            >(survivor(plain)),
        forall|plain: Seq<u8>|
            cipher@ == #[trigger] encrypt_spec(key@, plain) && (plain.len() == 0 || plain.last()
                != 0) ==> result_view(result) == Ok::<Seq<u8>, CodecError>(plain),
{
    let len: usize = cipher.len();
    if len == 0 {
        return Err(CodecError::Empty);
    }
    if len % 16 != 0 {
        return Err(CodecError::TruncatedBlock);
    }
    let blocks: usize = len / 16;
    let ghost opened = decrypt_blocks(key@, cipher@);
    let mut plain: Vec<u8> = Vec::new();
    let mut i: usize = 0;
    while i < blocks - 1
        invariant
            i <= blocks - 1,
            blocks == cipher@.len() / 16,
            cipher@.len() % 16 == 0,
            cipher@.len() > 0,
            opened == decrypt_blocks(key@, cipher@),
            plain@ == opened.subrange(0, 16 * i),
            forall|k: int| 0 <= k < i ==> block_inverted(key@, #[trigger] block_at(cipher@, k)),
        decreases blocks - 1 - i,
    {
        let block = whole_block(cipher, i);
        let clear = decrypt_block(key.as_bytes(), &block);
        append_prefix(&mut plain, &clear, 16);
        i += 1;
    }
    let block = whole_block(cipher, i);
    let clear = decrypt_block(key.as_bytes(), &block);
    let keep = content_len(&clear);
    append_prefix(&mut plain, &clear, keep);
    proof {
        assert(clear@ =~= opened.subrange(opened.len() - 16, opened.len() as int));
        assert forall|text: Seq<u8>| cipher@ == #[trigger] encrypt_spec(key@, text) implies plain@
            == survivor(text) by {
            lemma_decrypt_encrypt(key@, text);
        }
        assert forall|text: Seq<u8>|
            cipher@ == #[trigger] encrypt_spec(key@, text) && (text.len() == 0 || text.last()
                != 0) implies plain@ == text by {
            lemma_decrypt_encrypt(key@, text);
            lemma_survivor_whole(text);
        }
    }
    Ok(plain)
}

} // verus!
