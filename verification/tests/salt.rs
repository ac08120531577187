use journal::salt::{
    load_or_create, resolve, Provenance, RecordFault, SaltError, SaltOutcome, SaltRecord,
    FORMAT_VERSION, RECORD_LEN, SALT_LEN,
};

fn sample_salt() -> [u8; 32] {
    let mut salt = [0u8; 32];
    for (i, byte) in salt.iter_mut().enumerate() {
        *byte = 200 - i as u8;
    }
    salt
}

fn sample_file() -> Vec<u8> {
    let mut bytes = vec![0u8];
    bytes.extend_from_slice(&sample_salt());
    bytes
}

#[test]
fn the_record_layout_is_one_version_byte_and_the_salt() {
    assert_eq!(FORMAT_VERSION, 0);
    assert_eq!(SALT_LEN, 32);
    assert_eq!(RECORD_LEN, 33);
    let record = SaltRecord::new(sample_salt());
    assert_eq!(record.version, 0);
    let bytes = record.encode();
    assert_eq!(bytes.len(), 33);
    assert_eq!(bytes[0], 0);
    assert_eq!(&bytes[1..], &sample_salt()[..]);
    assert_eq!(bytes, sample_file());
}

#[test]
fn a_record_is_read_back_from_its_bytes() {
    let record = SaltRecord::new(sample_salt());
    assert_eq!(SaltRecord::parse(&record.encode()), Ok(record));
}

#[test]
fn an_empty_file_has_no_version() {
    assert_eq!(SaltRecord::parse(&[]), Err(RecordFault::Empty));
}

#[test]
fn a_file_that_ends_within_the_salt_is_truncated() {
    let file = sample_file();
    for len in 1..33usize {
        assert_eq!(SaltRecord::parse(&file[..len]), Err(RecordFault::TruncatedSalt), "{}", len);
    }
}

#[test]
fn another_version_is_unknown() {
    let mut file = sample_file();
    file[0] = 1;
    assert_eq!(SaltRecord::parse(&file), Err(RecordFault::UnknownVersion));
    assert_eq!(SaltRecord::parse(&[255u8]), Err(RecordFault::UnknownVersion));
}

#[test]
fn bytes_behind_the_salt_are_ignored() {
    let mut file = sample_file();
    file.extend_from_slice(&[9, 9, 9]);
    assert_eq!(SaltRecord::parse(&file), Ok(SaltRecord::new(sample_salt())));
}

#[test]
fn resolve_keeps_a_readable_record() {
    let file = sample_file();
    let outcome = resolve(Some(&file), [1u8; 32]);
    assert_eq!(
        outcome,
        SaltOutcome { record: SaltRecord::new(sample_salt()), provenance: Provenance::Loaded }
    );
}

#[test]
fn resolve_creates_a_record_where_there_is_none() {
    let outcome = resolve(None, [1u8; 32]);
    assert_eq!(
        outcome,
        SaltOutcome { record: SaltRecord::new([1u8; 32]), provenance: Provenance::Created }
    );
}

#[test]
fn resolve_replaces_an_unusable_record() {
    let outcome = resolve(Some(&[0u8, 1, 2]), [1u8; 32]);
    assert_eq!(
        outcome,
        SaltOutcome {
            record: SaltRecord::new([1u8; 32]),
            provenance: Provenance::Replaced(RecordFault::TruncatedSalt),
        }
    );
    let outcome = resolve(Some(&[3u8; 33]), [2u8; 32]);
    assert_eq!(
        outcome,
        SaltOutcome {
            record: SaltRecord::new([2u8; 32]),
            provenance: Provenance::Replaced(RecordFault::UnknownVersion),
        }
    );
}

#[test]
fn a_directory_without_a_record_gets_a_random_one() {
    let one = load_or_create(None).unwrap();
    let two = load_or_create(None).unwrap();
    assert_eq!(one.provenance, Provenance::Created);
    assert_eq!(one.record.version, 0);
    assert_eq!(one.record.salt.len(), 32);
    assert_eq!(one.record.encode().len(), 33);
    assert_eq!(one.record.encode()[0], 0);
    assert_ne!(one.record.salt, two.record.salt);
    assert_ne!(one.record.salt, [0u8; 32]);
}

#[test]
fn a_readable_record_is_loaded_as_it_is() {
    let file = sample_file();
    let outcome = load_or_create(Some(&file)).unwrap();
    assert_eq!(outcome.provenance, Provenance::Loaded);
    assert_eq!(outcome.record.salt, sample_salt());
    assert_eq!(outcome.record.encode(), file);
}

#[test]
fn a_record_of_an_unknown_version_is_replaced_by_a_new_one() {
    let mut file = sample_file();
    file[0] = 7;
    let outcome = load_or_create(Some(&file)).unwrap();
    assert_eq!(outcome.provenance, Provenance::Replaced(RecordFault::UnknownVersion));
    let written = outcome.record.encode();
    assert_eq!(written.len(), 33);
    assert_eq!(written[0], 0);
    assert_ne!(written, file);
    assert_ne!(outcome.record.salt, sample_salt());
}

#[test]
fn a_truncated_record_is_replaced_by_a_new_one() {
    let file = sample_file();
    let outcome = load_or_create(Some(&file[..20])).unwrap();
    assert_eq!(outcome.provenance, Provenance::Replaced(RecordFault::TruncatedSalt));
    assert_eq!(outcome.record.version, 0);
    let outcome = load_or_create(Some(&[])).unwrap();
    assert_eq!(outcome.provenance, Provenance::Replaced(RecordFault::Empty));
}

#[test]
fn generated_records_differ() {
    let one = SaltRecord::generate().unwrap();
    let two = SaltRecord::generate().unwrap();
    assert_eq!(one.version, 0);
    assert_ne!(one.salt, two.salt);
}

#[test]
fn bytes_that_were_drawn_become_the_salt_of_a_new_record() {
    assert_eq!(SaltRecord::from_drawn(Ok(sample_salt())), Ok(SaltRecord::new(sample_salt())));
    assert_eq!(SaltRecord::from_drawn(Ok([0u8; 32])), Ok(SaltRecord::new([0u8; 32])));
}

#[test]
fn a_failed_draw_is_randomness_unavailable() {
    assert_eq!(
        SaltRecord::from_drawn(Err(getrandom::Error::UNSUPPORTED)),
        Err(SaltError::RandomnessUnavailable)
    );
    assert_eq!(
        SaltRecord::from_drawn(Err(getrandom::Error::UNEXPECTED)),
        Err(SaltError::RandomnessUnavailable)
    );
}
