//! The session key and its derivation from a passphrase.
//!
//! The key is the Argon2id hash of the passphrase under the directory's
//! salt, with parameters that are fixed for the life of the file format:
//! changing any of them makes every existing note unreadable.

use vstd::prelude::*;
use zeroize::Zeroize;

verus! {

/// Length of a derived key in bytes.
pub const KDF_HASH_LENGTH: u32 = 32;

/// Number of Argon2 lanes.
pub const KDF_LANES: u32 = 4;

/// Argon2 memory cost in KiB: 256 MiB.
pub const KDF_MEMORY_KIB: u32 = 256 * 1024;

/// Number of Argon2 passes.
pub const KDF_TIME_COST: u32 = 1;

/// The associated data that sets this use of Argon2 apart: the ASCII text
/// `journal_key`.
pub const KDF_ASSOCIATED_DATA: [u8; 11] = [106, 111, 117, 114, 110, 97, 108, 95, 107, 101, 121];

/// The declaration of `argon2::Error` for the verifier.
#[verifier::external_type_specification]
#[verifier::external_body]
pub struct ExArgon2Error(argon2::Error);

/// The raw Argon2id hash, version 1.3, of a password under the given salt,
/// secret, associated data and cost parameters.
pub uninterp spec fn argon2id_v13(
    password: Seq<u8>,
    salt: Seq<u8>,
    secret: Seq<u8>,
    associated_data: Seq<u8>,
    hash_length: u32,
    lanes: u32,
    memory_kib: u32,
    time_cost: u32,
) -> Seq<u8>;

/// The inputs that `argon2::hash_raw` accepts, as its validation spells them
/// out; any other input is answered with an error.
pub open spec fn argon2_accepts(
    password_len: nat,
    salt_len: nat,
    secret_len: nat,
    associated_data_len: nat,
    hash_length: u32,
    lanes: u32,
    memory_kib: u32,
    time_cost: u32,
) -> bool {
    &&& 1 <= lanes <= 0x00FF_FFFF
    &&& 8 <= memory_kib
    &&& 8 * lanes <= memory_kib
    &&& usize::BITS == 32 ==> memory_kib <= 0x0020_0000
    &&& 1 <= time_cost
    &&& password_len <= 0xFFFF_FFFF
    &&& 8 <= salt_len <= 0xFFFF_FFFF
    &&& secret_len <= 0xFFFF_FFFF
    &&& associated_data_len <= 0xFFFF_FFFF
    &&& 4 <= hash_length
}

/// Calls `argon2::hash_raw` of the `rust-argon2` crate with an Argon2id,
/// version 1.3 configuration made of the arguments.
///
/// Trusted: the call succeeds exactly on the inputs that its validation
/// accepts, and then returns the Argon2id hash, `hash_length` bytes long.
/// The working memory, `memory_kib` KiB, has to be addressable.
#[verifier::external_body]
fn argon2id_hash_raw(
    password: &[u8],
    salt: &[u8],
    secret: &[u8],
    associated_data: &[u8],
    hash_length: u32,
    lanes: u32,
    memory_kib: u32,
    time_cost: u32,
) -> (result: Result<Vec<u8>, argon2::Error>)
    requires
        memory_kib * 1024 <= isize::MAX,
    ensures
        result is Ok <==> argon2_accepts(
            password@.len(),
            salt@.len(),
            secret@.len(),
            associated_data@.len(),
            hash_length,
            lanes,
            memory_kib,
            time_cost,
        ),
        result matches Ok(hash) ==> hash@ == argon2id_v13(
            password@,
            salt@,
            secret@,
            associated_data@,
            hash_length,
            lanes,
            memory_kib,
            time_cost,
        ) && hash@.len() == hash_length,
{
    let config = argon2::Config {
        ad: associated_data,
        hash_length,
        lanes,
        mem_cost: memory_kib,
        secret,
        time_cost,
        variant: argon2::Variant::Argon2id,
        version: argon2::Version::Version13,
    };
    argon2::hash_raw(password, salt, &config)
}

/// Calls `Zeroize::zeroize` of the `zeroize` crate on a byte vector.
///
/// Trusted: every byte is overwritten with zero and the vector is left empty.
#[verifier::external_body]
fn zeroize_vec(bytes: &mut Vec<u8>)
    ensures
        final(bytes)@ == Seq::<u8>::empty(),
{
    bytes.zeroize();
}

/// Calls `Zeroize::zeroize` of the `zeroize` crate on a 32-byte array.
///
/// Trusted: every byte is overwritten with zero.
#[verifier::external_body]
fn zeroize_array(bytes: &mut [u8; 32])
    ensures
        final(bytes)@ == Seq::new(32, |i: int| 0u8),
{
    bytes.zeroize();
}

/// Why no key was derived.
#[derive(Debug, Clone, Copy, PartialEq, Eq, Structural)]
pub enum KdfError {
    /// The passphrase is longer than Argon2 can hash.
    PassphraseTooLong,
}

/// The 32-byte secret that keys the block cipher for one session.
pub struct DerivedKey {
    bytes: [u8; 32],
}

impl View for DerivedKey {
    type V = Seq<u8>;

    closed spec fn view(&self) -> Seq<u8> {
        self.bytes@
    }
}

/// The key that a passphrase and a salt derive.
pub open spec fn derive_spec(passphrase: Seq<u8>, salt: Seq<u8>) -> Seq<u8> {
    argon2id_v13(
        passphrase,
        salt,
        Seq::<u8>::empty(),
        KDF_ASSOCIATED_DATA@,
        KDF_HASH_LENGTH,
        KDF_LANES,
        KDF_MEMORY_KIB,
        KDF_TIME_COST,
    )
}

/// The same passphrase and salt derive the same key.
pub proof fn lemma_derive_deterministic(
    passphrase: Seq<u8>,
    salt: Seq<u8>,
    other_passphrase: Seq<u8>,
    other_salt: Seq<u8>,
)
    requires
        passphrase == other_passphrase,
        salt == other_salt,
    ensures
        derive_spec(passphrase, salt) == derive_spec(other_passphrase, other_salt),
{
}

impl DerivedKey {
    /// A key made of the given bytes.
    pub fn from_bytes(bytes: [u8; 32]) -> (key: DerivedKey)
        ensures
            key@ == bytes@,
    {
        DerivedKey { bytes }
    }

    /// The bytes of the key.
    pub fn as_bytes(&self) -> (bytes: &[u8; 32])
        ensures
            bytes@ == self@,
    {
        &self.bytes
    }

    /// A key is 32 bytes long.
    pub proof fn lemma_len(&self)
        ensures
            self@.len() == 32,
    {
    }

    /// Overwrites the key with zeros. To be called on every path that ends
    /// the key's use.
    pub fn wipe(&mut self)
        ensures
            final(self)@ == Seq::new(32, |i: int| 0u8),
    {
        zeroize_array(&mut self.bytes);
    }

    /// Derives the session key from a passphrase and the directory's salt,
    /// and wipes the passphrase.
    ///
    /// Fails only on a passphrase longer than 4 GiB - 1 bytes.
    pub fn derive(passphrase: &mut Vec<u8>, salt: &[u8; 32]) -> (result: Result<
        DerivedKey,
        KdfError,
    >)
        ensures
            final(passphrase)@ == Seq::<u8>::empty(),
            old(passphrase)@.len() <= 0xFFFF_FFFF ==> result is Ok,
            old(passphrase)@.len() > 0xFFFF_FFFF ==> result == Err::<DerivedKey, KdfError>(
                KdfError::PassphraseTooLong,
            ),
            result matches Ok(key) ==> key@ == derive_spec(old(passphrase)@, salt@),
    {
        if passphrase.len() > 0xFFFF_FFFF {
            zeroize_vec(passphrase);
            return Err(KdfError::PassphraseTooLong);
        }
        let secret: Vec<u8> = Vec::new();
        let associated_data = KDF_ASSOCIATED_DATA;
        let hashed = argon2id_hash_raw(
            passphrase.as_slice(),
            salt.as_slice(),
            secret.as_slice(),
            associated_data.as_slice(),
            KDF_HASH_LENGTH,
            KDF_LANES,
            KDF_MEMORY_KIB,
            KDF_TIME_COST,
        );
        zeroize_vec(passphrase);
        match hashed {
            Ok(mut hash) => {
                let mut bytes = [0u8; 32];
                let mut i: usize = 0;
                while i < 32
                    invariant
                        i <= 32,
                        hash@.len() == 32,
                        forall|j: int| 0 <= j < i ==> bytes@[j] == hash@[j],
                    decreases 32 - i,
                {
                    bytes[i] = hash[i];
                    i += 1;
                }
                zeroize_vec(&mut hash);
                Ok(DerivedKey { bytes })
            },
            Err(_) => unreached(),
        }
    }
}

} // verus!
