//! The block codec fed piece by piece, so that a long note never has to be
//! held in memory as a whole.
//!
//! An [`Encryptor`] takes the plaintext in chunks of any size and hands out
//! the ciphertext of every block that is complete; `finish` hands out the
//! padding block. A [`Decryptor`] takes the ciphertext in chunks and hands
//! out the plaintext of every block but the last one it has seen, which it
//! keeps back until `finish`, where the trailing zeros go.

use vstd::prelude::*;
use crate::cipher::{decrypt_block, encrypt_block};
use crate::codec::{
    append_prefix, block_at, block_inverted, blocks_inverted, content_len, decrypt_blocks,
    decrypt_spec, encrypt, encrypt_blocks, encrypt_spec, lemma_decrypt_encrypt, padded, remainder,
    stripped, survivor, unpadded, whole_block, whole_blocks, CodecError,
};
use crate::key::DerivedKey;

verus! {

/// The number of bytes of a ciphertext of `len` bytes that are known not to
/// belong to its last block: all whole blocks but the last one.
pub open spec fn settled_len(len: nat) -> nat {
    if len == 0 {
        0
    } else {
        (16 * ((len - 1) / 16)) as nat
    }
}

/// The part of a ciphertext that is known not to belong to its last block.
pub open spec fn settled(bytes: Seq<u8>) -> Seq<u8> {
    bytes.subrange(0, settled_len(bytes.len()) as int)
}

/// The end of a ciphertext that may yet be its last block: between 1 and 16
/// bytes, or none if the ciphertext is empty.
pub open spec fn unsettled(bytes: Seq<u8>) -> Seq<u8> {
    bytes.subrange(settled_len(bytes.len()) as int, bytes.len() as int)
}

/// Encrypting whole blocks one after the other is encrypting their
/// concatenation.
pub proof fn lemma_encrypt_blocks_concat(key: Seq<u8>, first: Seq<u8>, second: Seq<u8>)
    requires
        first.len() % 16 == 0,
        second.len() % 16 == 0,
    ensures
        encrypt_blocks(key, first + second) == encrypt_blocks(key, first) + encrypt_blocks(
            key,
            second,
        ),
{
    let whole = first + second;
    let joined = encrypt_blocks(key, first) + encrypt_blocks(key, second);
    assert forall|j: int| 0 <= j < whole.len() implies encrypt_blocks(key, whole)[j]
        == joined[j] by {
        if j < first.len() {
            assert(block_at(whole, j / 16) =~= block_at(first, j / 16));
        } else {
            let k = j - first.len();
            assert(block_at(whole, j / 16) =~= block_at(second, k / 16));
        }
    }
}

/// Decrypting whole blocks one after the other is decrypting their
/// concatenation.
pub proof fn lemma_decrypt_blocks_concat(key: Seq<u8>, first: Seq<u8>, second: Seq<u8>)
    requires
        first.len() % 16 == 0,
        second.len() % 16 == 0,
    ensures
        decrypt_blocks(key, first + second) == decrypt_blocks(key, first) + decrypt_blocks(
            key,
            second,
        ),
{
    let whole = first + second;
    let joined = decrypt_blocks(key, first) + decrypt_blocks(key, second);
    assert forall|j: int| 0 <= j < whole.len() implies decrypt_blocks(key, whole)[j]
        == joined[j] by {
        if j < first.len() {
            assert(block_at(whole, j / 16) =~= block_at(first, j / 16));
        } else {
            let k = j - first.len();
            assert(block_at(whole, j / 16) =~= block_at(second, k / 16));
        }
    }
}

/// A ciphertext is the encryption of the plaintext's whole blocks followed
/// by the encryption of what is left.
pub proof fn lemma_encrypt_split(key: Seq<u8>, plain: Seq<u8>)
    ensures
        encrypt_spec(key, plain) == encrypt_blocks(key, whole_blocks(plain)) + encrypt_spec(
            key,
            remainder(plain),
        ),
{
    assert(padded(plain) =~= whole_blocks(plain) + padded(remainder(plain)));
    lemma_encrypt_blocks_concat(key, whole_blocks(plain), padded(remainder(plain)));
}

/// Decrypting a ciphertext is decrypting its settled part, and then its
/// last block on its own.
pub proof fn lemma_decrypt_split(key: Seq<u8>, cipher: Seq<u8>)
    ensures
        decrypt_spec(key, cipher) == match decrypt_spec(key, unsettled(cipher)) {
            Ok(last) => Ok::<Seq<u8>, CodecError>(decrypt_blocks(key, settled(cipher)) + last),
            Err(error) => Err::<Seq<u8>, CodecError>(error),
        },
{
    if cipher.len() > 0 && cipher.len() % 16 == 0 {
        let head = settled(cipher);
        let last = unsettled(cipher);
        assert(cipher =~= head + last);
        lemma_decrypt_blocks_concat(key, head, last);
        let opened = decrypt_blocks(key, cipher);
        assert(opened.subrange(opened.len() - 16, opened.len() as int) =~= decrypt_blocks(
            key,
            last,
        ));
        assert(decrypt_blocks(key, last).subrange(0, 16) =~= decrypt_blocks(key, last));
        assert(unpadded(opened) =~= decrypt_blocks(key, head) + unpadded(
            decrypt_blocks(key, last),
        ));
    }
}

/// An encryption in progress.
pub struct Encryptor<'a> {
    key: &'a DerivedKey,
    pending: Vec<u8>,
    fed: Ghost<Seq<u8>>,
    emitted: Ghost<Seq<u8>>,
}

impl<'a> Encryptor<'a> {
    /// What has been handed out is the ciphertext of the whole blocks fed,
    /// and what is pending is the rest.
    #[verifier::type_invariant]
    spec fn consistent(&self) -> bool {
        &&& self.pending@ == remainder(self.fed@)
        &&& self.emitted@ == encrypt_blocks(self.key@, whole_blocks(self.fed@))
    }

    /// The key in use.
    pub closed spec fn key(&self) -> Seq<u8> {
        self.key@
    }

    /// All the plaintext fed so far.
    pub closed spec fn fed(&self) -> Seq<u8> {
        self.fed@
    }

    /// All the ciphertext handed out so far.
    pub closed spec fn emitted(&self) -> Seq<u8> {
        self.emitted@
    }

    /// An encryption under `key` that has been fed nothing yet.
    pub fn new(key: &'a DerivedKey) -> (encryptor: Encryptor<'a>)
        ensures
            encryptor.key() == key@,
            encryptor.fed() == Seq::<u8>::empty(),
            encryptor.emitted() == Seq::<u8>::empty(),
    {
        let pending: Vec<u8> = Vec::new();
        proof {
            assert(remainder(Seq::<u8>::empty()) =~= pending@);
            assert(encrypt_blocks(key@, whole_blocks(Seq::<u8>::empty())) =~= Seq::<u8>::empty());
        }
        Encryptor { key, pending, fed: Ghost(Seq::empty()), emitted: Ghost(Seq::empty()) }
    }

    /// Feeds the next piece of plaintext and returns the ciphertext of the
    /// blocks that it completes.
    pub fn update(&mut self, chunk: &[u8]) -> (out: Vec<u8>)
        ensures
            final(self).key() == old(self).key(),
            final(self).fed() == old(self).fed() + chunk@,
            final(self).emitted() == old(self).emitted() + out@,
            final(self).emitted() == encrypt_blocks(old(self).key(), whole_blocks(final(self).fed())),
    {
        proof {
            use_type_invariant(&*self);
        }
        let key = self.key;
        let ghost start = self.fed@;
        let ghost before = self.emitted@;
        let mut buffer: Vec<u8> = self.pending.clone();
        let mut out: Vec<u8> = Vec::new();
        let mut i: usize = 0;
        while i < chunk.len()
            invariant
                i <= chunk@.len(),
                buffer@.len() < 16,
                buffer@ == remainder(start + chunk@.subrange(0, i as int)),
                before + out@ == encrypt_blocks(
                    key@,
                    whole_blocks(start + chunk@.subrange(0, i as int)),
                ),
            decreases chunk@.len() - i,
        {
            let ghost seen = start + chunk@.subrange(0, i as int);
            let ghost more = start + chunk@.subrange(0, i + 1);
            buffer.push(chunk[i]);
            i += 1;
            if buffer.len() == 16 {
                let block = whole_block(buffer.as_slice(), 0);
                let sealed = encrypt_block(key.as_bytes(), &block);
                append_prefix(&mut out, &sealed, 16);
                buffer.clear();
                proof {
                    assert(whole_blocks(more) =~= whole_blocks(seen) + block@);
                    lemma_encrypt_blocks_concat(key@, whole_blocks(seen), block@);
                    assert(block_at(block@, 0) =~= block@);
                }
            } else {
                proof {
                    assert(whole_blocks(more) =~= whole_blocks(seen));
                }
            }
        }
        proof {
            assert(chunk@.subrange(0, chunk@.len() as int) =~= chunk@);
        }
        *self = Encryptor {
            key,
            pending: buffer,
            fed: Ghost(start + chunk@),
            emitted: Ghost(before + out@),
        };
        out
    }

    /// Ends the encryption and returns the last block: what is pending,
    /// zero-padded. Everything handed out, with this block at its end, is
    /// the ciphertext of everything fed.
    pub fn finish(self) -> (out: Vec<u8>)
        ensures
            self.emitted() + out@ == encrypt_spec(self.key(), self.fed()),
            out@.len() == 16,
    {
        proof {
            use_type_invariant(&self);
            lemma_encrypt_split(self.key@, self.fed@);
        }
        encrypt(self.key, self.pending.as_slice())
    }
}

/// A decryption in progress.
pub struct Decryptor<'a> {
    key: &'a DerivedKey,
    held: Vec<u8>,
    fed: Ghost<Seq<u8>>,
    emitted: Ghost<Seq<u8>>,
}

impl<'a> Decryptor<'a> {
    /// What has been handed out is the plaintext of the settled part of
    /// what was fed, and what is held is the rest.
    #[verifier::type_invariant]
    spec fn consistent(&self) -> bool {
        &&& self.held@ == unsettled(self.fed@)
        &&& self.emitted@ == decrypt_blocks(self.key@, settled(self.fed@))
        &&& blocks_inverted(self.key@, settled(self.fed@))
    }

    /// The key in use.
    pub closed spec fn key(&self) -> Seq<u8> {
        self.key@
    }

    /// All the ciphertext fed so far.
    pub closed spec fn fed(&self) -> Seq<u8> {
        self.fed@
    }

    /// All the plaintext handed out so far.
    pub closed spec fn emitted(&self) -> Seq<u8> {
        self.emitted@
    }

    /// A decryption under `key` that has been fed nothing yet.
    pub fn new(key: &'a DerivedKey) -> (decryptor: Decryptor<'a>)
        ensures
            decryptor.key() == key@,
            decryptor.fed() == Seq::<u8>::empty(),
            decryptor.emitted() == Seq::<u8>::empty(),
    {
        let held: Vec<u8> = Vec::new();
        proof {
            assert(unsettled(Seq::<u8>::empty()) =~= held@);
            assert(decrypt_blocks(key@, settled(Seq::<u8>::empty())) =~= Seq::<u8>::empty());
        }
        Decryptor { key, held, fed: Ghost(Seq::empty()), emitted: Ghost(Seq::empty()) }
    }

    /// Feeds the next piece of ciphertext and returns the plaintext of the
    /// blocks that are now known not to be the last.
    pub fn update(&mut self, chunk: &[u8]) -> (out: Vec<u8>)
        ensures
            final(self).key() == old(self).key(),
            final(self).fed() == old(self).fed() + chunk@,
            final(self).emitted() == old(self).emitted() + out@,
            final(self).emitted() == decrypt_blocks(old(self).key(), settled(final(self).fed())),
    {
        proof {
            use_type_invariant(&*self);
        }
        let key = self.key;
        let ghost start = self.fed@;
        let ghost before = self.emitted@;
        let mut buffer: Vec<u8> = self.held.clone();
        let mut out: Vec<u8> = Vec::new();
        let mut i: usize = 0;
        while i < chunk.len()
            invariant
                i <= chunk@.len(),
                buffer@.len() <= 16,
                buffer@ == unsettled(start + chunk@.subrange(0, i as int)),
                before + out@ == decrypt_blocks(
                    key@,
                    settled(start + chunk@.subrange(0, i as int)),
                ),
                blocks_inverted(key@, settled(start + chunk@.subrange(0, i as int))),
            decreases chunk@.len() - i,
        {
            let ghost seen = start + chunk@.subrange(0, i as int);
            let ghost more = start + chunk@.subrange(0, i + 1);
            if buffer.len() == 16 {
                let block = whole_block(buffer.as_slice(), 0);
                let clear = decrypt_block(key.as_bytes(), &block);
                append_prefix(&mut out, &clear, 16);
                buffer.clear();
                proof {
                    assert(settled(more) =~= settled(seen) + block@);
                    lemma_decrypt_blocks_concat(key@, settled(seen), block@);
                    assert(block_at(block@, 0) =~= block@);
                    assert forall|k: int| 0 <= k < settled(more).len() / 16 implies block_inverted(
                        key@,
                        #[trigger] block_at(settled(more), k),
                    ) by {
                        if k < settled(seen).len() / 16 {
                            assert(block_at(settled(more), k) =~= block_at(settled(seen), k));
                        } else {
                            assert(block_at(settled(more), k) =~= block@);
                        }
                    }
                }
            } else {
                proof {
                    assert(settled(more) =~= settled(seen));
                }
            }
            buffer.push(chunk[i]);
            i += 1;
        }
        proof {
            assert(chunk@.subrange(0, chunk@.len() as int) =~= chunk@);
        }
        *self = Decryptor {
            key,
            held: buffer,
            fed: Ghost(start + chunk@),
            emitted: Ghost(before + out@),
        };
        out
    }

    /// Ends the decryption and returns the plaintext of the last block,
    /// without its trailing zeros.
    ///
    /// Fails if nothing was fed, or if what was fed is not a whole number of
    /// blocks. Otherwise everything handed out, with the result at its end,
    /// is the decryption of everything fed; if that was the encryption of a
    /// plaintext, it is the plaintext's survivor.
    pub fn finish(self) -> (result: Result<Vec<u8>, CodecError>)
        ensures
            match decrypt_spec(self.key(), self.fed()) {
                Ok(plain) => (result matches Ok(last) && self.emitted() + last@ == plain),
                Err(error) => result == Err::<Vec<u8>, CodecError>(error),
            },
            forall|plain: Seq<u8>|
                self.fed() == #[trigger] encrypt_spec(self.key(), plain) ==> (result matches Ok(
                    last,
                ) && self.emitted() + last@ == survivor(plain)),
    {
        proof {
            use_type_invariant(&self);
            lemma_decrypt_split(self.key@, self.fed@);
        }
        if self.held.len() == 0 {
            return Err(CodecError::Empty);
        }
        if self.held.len() != 16 {
            return Err(CodecError::TruncatedBlock);
        }
        let block = whole_block(self.held.as_slice(), 0);
        let clear = decrypt_block(self.key.as_bytes(), &block);
        let keep = content_len(&clear);
        let mut last: Vec<u8> = Vec::new();
        append_prefix(&mut last, &clear, keep);
        proof {
            let cipher = self.fed@;
            let key = self.key@;
            assert(block@ =~= unsettled(cipher));
            assert(decrypt_blocks(key, block@) =~= clear@);
            assert(unpadded(clear@) =~= stripped(clear@)) by {
                assert(clear@.subrange(0, 16) =~= clear@);
            }
            assert forall|k: int| 0 <= k < cipher.len() / 16 implies block_inverted(
                key,
                #[trigger] block_at(cipher, k),
            ) by {
                if k < cipher.len() / 16 - 1 {
                    assert(block_at(cipher, k) =~= block_at(settled(cipher), k));
                }
            }
            assert forall|plain: Seq<u8>| cipher == #[trigger] encrypt_spec(
                key,
                plain,
            ) implies decrypt_spec(key, cipher) == Ok::<Seq<u8>, CodecError>(
                survivor(plain),
            ) by {
                lemma_decrypt_encrypt(key, plain);
            }
        }
        Ok(last)
    }
}

} // verus!
