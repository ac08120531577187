//! The salt record of a journal directory.
//!
//! The record is one file of 33 bytes: a format-version byte, at present
//! `0`, and 32 random bytes of salt. A directory whose record is missing,
//! cut short or of another version gets a fresh one; notes encrypted under
//! the salt that it replaces can no longer be read.

use vstd::prelude::*;

verus! {

/// The only record version that is understood.
pub const FORMAT_VERSION: u8 = 0;

/// Length of a salt in bytes.
pub const SALT_LEN: usize = 32;

/// Length of a record in bytes.
pub const RECORD_LEN: usize = 33;

/// The contents of a record file.
#[derive(Debug, Clone, Copy, PartialEq, Eq)]
pub struct SaltRecord {
    /// The format version.
    pub version: u8,
    /// The salt.
    pub salt: [u8; 32],
}

/// What is wrong with the bytes of a record file.
#[derive(Debug, Clone, Copy, PartialEq, Eq, Structural)]
pub enum RecordFault {
    /// The file is empty: there is no version byte.
    Empty,
    /// The version byte is not one that is understood.
    UnknownVersion,
    /// The file ends before the salt's last byte.
    TruncatedSalt,
}

/// Where the salt of a session comes from.
#[derive(Debug, Clone, Copy, PartialEq, Eq, Structural)]
pub enum Provenance {
    /// The record file held it.
    Loaded,
    /// There was no record file; a new record has to be written.
    Created,
    /// The record file was unusable; a new record has to overwrite it.
    Replaced(RecordFault),
}

/// The salt to use and where it comes from.
#[derive(Debug, Clone, Copy, PartialEq, Eq)]
pub struct SaltOutcome {
    /// The record in force. Unless it was loaded, it is still to be written.
    pub record: SaltRecord,
    /// Where the record comes from.
    pub provenance: Provenance,
}

/// Why no salt could be had.
#[derive(Debug, Clone, Copy, PartialEq, Eq, Structural)]
pub enum SaltError {
    /// The operating system gave no random bytes.
    RandomnessUnavailable,
}

/// The declaration of `getrandom::Error` for the verifier.
#[verifier::external_type_specification]
#[verifier::external_body]
pub struct ExGetrandomError(getrandom::Error);

/// Calls `getrandom::getrandom` of the `getrandom` crate on a 32-byte buffer.
///
/// Trusted, and nothing is claimed: the bytes are whatever the operating
/// system's generator gave.
#[verifier::external_body]
fn random_salt() -> (result: Result<[u8; 32], getrandom::Error>) {
    let mut salt = [0u8; 32];
    match getrandom::getrandom(&mut salt) {
        Ok(()) => Ok(salt),
        Err(error) => Err(error),
    }
}

/// The bytes of a record file that holds `record`.
pub open spec fn record_bytes(record: SaltRecord) -> Seq<u8> {
    seq![record.version] + record.salt@
}

/// What reading a record file of the given bytes yields. The version is
/// judged before the salt is looked for, and bytes behind the salt are
/// ignored.
pub open spec fn parse_spec(bytes: Seq<u8>) -> Result<SaltRecord, RecordFault> {
    if bytes.len() == 0 {
        Err(RecordFault::Empty)
    } else if bytes[0] != FORMAT_VERSION {
        Err(RecordFault::UnknownVersion)
    } else if bytes.len() < 33 {
        Err(RecordFault::TruncatedSalt)
    } else {
        Ok(SaltRecord { version: FORMAT_VERSION, salt: salt_of(bytes) })
    }
}

/// The array that holds bytes 1 to 32 of `bytes`.
pub open spec fn salt_of(bytes: Seq<u8>) -> [u8; 32] {
    choose|salt: [u8; 32]| salt@ == bytes.subrange(1, 33)
}

/// The outcome for a directory whose record file holds `existing`, or has
/// none, when `candidate` is the salt that a new record would get.
pub open spec fn resolve_spec(existing: Option<Seq<u8>>, candidate: [u8; 32]) -> SaltOutcome {
    let fresh = SaltRecord { version: FORMAT_VERSION, salt: candidate };
    match existing {
        None => SaltOutcome { record: fresh, provenance: Provenance::Created },
        Some(bytes) => match parse_spec(bytes) {
            Ok(record) => SaltOutcome { record, provenance: Provenance::Loaded },
            Err(fault) => SaltOutcome { record: fresh, provenance: Provenance::Replaced(fault) },
        },
    }
}

/// The view of the contents of a record file that may be missing.
pub open spec fn contents_view(existing: Option<&[u8]>) -> Option<Seq<u8>> {
    match existing {
        None => None,
        Some(bytes) => Some(bytes@),
    }
}

/// Whether a directory with these record contents needs a new record.
pub open spec fn needs_new_record(existing: Option<Seq<u8>>) -> bool {
    match existing {
        None => true,
        Some(bytes) => parse_spec(bytes) is Err,
    }
}

impl SaltRecord {
    /// A record of the current version with the given salt.
    pub fn new(salt: [u8; 32]) -> (record: SaltRecord)
        ensures
            record == (SaltRecord { version: FORMAT_VERSION, salt }),
    {
        SaltRecord { version: FORMAT_VERSION, salt }
    }

    /// A record of the current version with a salt drawn from the operating
    /// system's random generator.
    pub fn generate() -> (result: Result<SaltRecord, SaltError>)
        ensures
            result matches Ok(record) ==> record.version == FORMAT_VERSION,
            result matches Err(error) ==> error == SaltError::RandomnessUnavailable,
    {
        SaltRecord::from_drawn(random_salt())
    }

    /// What a draw from the random generator comes to: a record of the
    /// current version with the bytes drawn as its salt, or, if the draw
    /// failed, the error that says so.
    pub fn from_drawn(drawn: Result<[u8; 32], getrandom::Error>) -> (result: Result<
        SaltRecord,
        SaltError,
    >)
        ensures
            result == drawn_record(drawn),
    {
        match drawn {
            Ok(salt) => Ok(SaltRecord::new(salt)),
            Err(_) => Err(SaltError::RandomnessUnavailable),
        }
    }

    /// The bytes to write to the record file: the version, then the salt.
    pub fn encode(&self) -> (bytes: Vec<u8>)
        ensures
            bytes@ == record_bytes(*self),
            bytes@.len() == 33,
    {
        let mut bytes: Vec<u8> = Vec::new();
        bytes.push(self.version);
        let mut i: usize = 0;
        while i < 32
            invariant
                i <= 32,
                bytes@ == seq![self.version] + self.salt@.subrange(0, i as int),
            decreases 32 - i,
        {
            bytes.push(self.salt[i]);
            i += 1;
        }
        bytes
    }

    /// Reads a record from the bytes of a record file.
    pub fn parse(bytes: &[u8]) -> (result: Result<SaltRecord, RecordFault>)
        ensures
            result == parse_spec(bytes@),
            result matches Ok(record) ==> record.version == FORMAT_VERSION && record.salt@
                == bytes@.subrange(1, 33),
    {
        if bytes.len() == 0 {
            return Err(RecordFault::Empty);
        }
        if bytes[0] != FORMAT_VERSION {
            return Err(RecordFault::UnknownVersion);
        }
        if bytes.len() < 33 {
            return Err(RecordFault::TruncatedSalt);
        }
        let mut salt = [0u8; 32];
        let mut i: usize = 0;
        while i < 32
            invariant
                i <= 32,
                bytes@.len() >= 33,
                forall|j: int| 0 <= j < i ==> salt@[j] == bytes@[1 + j],
            decreases 32 - i,
        {
            salt[i] = bytes[1 + i];
            i += 1;
        }
        proof {
            assert(salt@ =~= bytes@.subrange(1, 33));
            lemma_salt_of(bytes@, salt);
        }
        Ok(SaltRecord { version: FORMAT_VERSION, salt })
    }
}

/// The record that a draw from the random generator comes to.
pub open spec fn drawn_record(drawn: Result<[u8; 32], getrandom::Error>) -> Result<
    SaltRecord,
    SaltError,
> {
    match drawn {
        Ok(salt) => Ok(SaltRecord { version: FORMAT_VERSION, salt }),
        Err(_) => Err(SaltError::RandomnessUnavailable),
    }
}

/// The array picked for the salt is the one that holds its bytes.
proof fn lemma_salt_of(bytes: Seq<u8>, salt: [u8; 32])
    requires
        salt@ == bytes.subrange(1, 33),
    ensures
        salt_of(bytes) == salt,
{
}

/// A record of the current version is read back from its own bytes.
pub proof fn lemma_parse_encoded(record: SaltRecord)
    requires
        record.version == FORMAT_VERSION,
    ensures
        parse_spec(record_bytes(record)) == Ok::<SaltRecord, RecordFault>(record),
{
    assert(record_bytes(record).subrange(1, 33) =~= record.salt@);
    lemma_salt_of(record_bytes(record), record.salt);
}

/// A record file of another version is replaced by a new record of the
/// current version, whose 33 bytes differ from the file's whatever the new
/// salt is.
pub proof fn lemma_unknown_version_replaced(bytes: Seq<u8>, candidate: [u8; 32])
    requires
        bytes.len() > 0,
        bytes[0] != FORMAT_VERSION,
    ensures
        parse_spec(bytes) == Err::<SaltRecord, RecordFault>(RecordFault::UnknownVersion),
        needs_new_record(Some(bytes)),
        resolve_spec(Some(bytes), candidate).provenance == Provenance::Replaced(
            RecordFault::UnknownVersion,
        ),
        resolve_spec(Some(bytes), candidate).record.version == FORMAT_VERSION,
        record_bytes(resolve_spec(Some(bytes), candidate).record).len() == 33,
        record_bytes(resolve_spec(Some(bytes), candidate).record) != bytes,
{
}

/// A directory without a record file gets a record of the current version,
/// 33 bytes long.
pub proof fn lemma_missing_record_created(candidate: [u8; 32])
    ensures
        resolve_spec(None, candidate) == (SaltOutcome {
            record: SaltRecord { version: FORMAT_VERSION, salt: candidate },
            provenance: Provenance::Created,
        }),
        record_bytes(resolve_spec(None, candidate).record).len() == 33,
        record_bytes(resolve_spec(None, candidate).record)[0] == FORMAT_VERSION,
{
}

/// A record that was written is loaded as it is the next time.
pub proof fn lemma_written_record_loaded(record: SaltRecord, candidate: [u8; 32])
    requires
        record.version == FORMAT_VERSION,
    ensures
        resolve_spec(Some(record_bytes(record)), candidate) == (SaltOutcome {
            record,
            provenance: Provenance::Loaded,
        }),
{
    lemma_parse_encoded(record);
}

/// Decides between the record on disk and a new one with the salt
/// `candidate`: a readable record is kept, anything else is replaced.
pub fn resolve(existing: Option<&[u8]>, candidate: [u8; 32]) -> (outcome: SaltOutcome)
    ensures
        outcome == resolve_spec(contents_view(existing), candidate),
{
    match existing {
        None => SaltOutcome { record: SaltRecord::new(candidate), provenance: Provenance::Created },
        Some(bytes) => match SaltRecord::parse(bytes) {
            Ok(record) => SaltOutcome { record, provenance: Provenance::Loaded },
            Err(fault) => SaltOutcome {
                record: SaltRecord::new(candidate),
                provenance: Provenance::Replaced(fault),
            },
        },
    }
}

/// The salt of a directory whose record file holds `existing`, or has none.
///
/// A readable record is returned as it is, and no random bytes are drawn.
/// Otherwise a new record of the current version is made from random
/// bytes; the caller has to write its bytes over the record file. That
/// fails only if the operating system gives no random bytes.
pub fn load_or_create(existing: Option<&[u8]>) -> (result: Result<SaltOutcome, SaltError>)
    ensures
        !needs_new_record(contents_view(existing)) ==> result is Ok,
        result matches Ok(outcome) ==> outcome == resolve_spec(
            contents_view(existing),
            outcome.record.salt,
        ),
        result matches Ok(outcome) ==> outcome.record.version == FORMAT_VERSION && (
        outcome.provenance == Provenance::Loaded <==> !needs_new_record(contents_view(existing))),
        result matches Err(error) ==> error == SaltError::RandomnessUnavailable
            && needs_new_record(contents_view(existing)),
{
    let provenance = match existing {
        None => Provenance::Created,
        Some(bytes) => match SaltRecord::parse(bytes) {
            Ok(record) => {
                return Ok(SaltOutcome { record, provenance: Provenance::Loaded });
            },
            Err(fault) => Provenance::Replaced(fault),
        },
    };
    match SaltRecord::generate() {
        Ok(record) => Ok(SaltOutcome { record, provenance }),
        Err(error) => Err(error),
    }
}

} // verus!
