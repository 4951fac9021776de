use omnidisc::mls::file::{
    decrypt_chunk_hashed, encrypt_chunk_hashed, file_ends_early, next_chunk_step, ChunkStep,
    chunk_count, chunk_plain_len, decrypt_chunk, encrypt_chunk, encrypted_size, new_file_secret, CHUNK_SIZE,
};
use omnidisc::mls::state::{decrypt_state, encrypt_state, new_state_key};
use omnidisc::mls::fingerprint::fingerprint;
use omnidisc::mls::group_list::{split_state, state_blob};
use omnidisc::mls::plain_hash::{new_plain_hasher, plain_digest_hex};
use omnidisc::mls::MlsError;

#[test]
fn chunk_counts_cover_the_edges() {
    assert_eq!(chunk_count(0), 1);
    assert_eq!(chunk_count(1), 1);
    assert_eq!(chunk_count(CHUNK_SIZE as u64), 1);
    assert_eq!(chunk_count(CHUNK_SIZE as u64 + 1), 2);
    assert_eq!(
        encrypted_size(CHUNK_SIZE as u64 + 1),
        CHUNK_SIZE as u64 + 1 + 32
    );
}

#[test]
fn chunk_lengths_add_up_to_the_file() {
    let c = CHUNK_SIZE as u64;
    assert_eq!(chunk_plain_len(0, 0), 0);
    assert_eq!(chunk_plain_len(5, 0), 5);
    assert_eq!(chunk_plain_len(c, 0), CHUNK_SIZE);
    assert_eq!(chunk_plain_len(2 * c + 7, 0), CHUNK_SIZE);
    assert_eq!(chunk_plain_len(2 * c + 7, 1), CHUNK_SIZE);
    assert_eq!(chunk_plain_len(2 * c + 7, 2), 7);
    for size in [0, 1, c - 1, c, c + 1, 3 * c, 3 * c + 12] {
        let total: u64 = (0..chunk_count(size)).map(|i| chunk_plain_len(size, i) as u64).sum();
        assert_eq!(total, size);
    }
}

#[test]
fn round_trips_and_refuses_tampering() {
    let key = new_state_key();
    let blob = encrypt_state(&key, b"group state").expect("encrypt");
    assert_eq!(&blob[..6], b"ODMLS\0");
    assert_eq!(decrypt_state(&key, &blob).expect("decrypt"), b"group state");

    let mut bad = blob.clone();
    let last = bad.len() - 1;
    bad[last] ^= 0xff;
    assert!(decrypt_state(&key, &bad).is_err());

    assert!(decrypt_state(&new_state_key(), &blob).is_err());
    assert!(decrypt_state(&key, &blob[..8]).is_err());
}

#[test]
fn a_future_version_is_named_not_guessed() {
    let key = new_state_key();
    let mut blob = encrypt_state(&key, b"x").expect("encrypt");
    blob[9] = 2;
    let err = decrypt_state(&key, &blob).expect_err("version mismatch");
    assert!(err.message().contains("version 2"), "{}", err.message());
}

#[test]
fn a_chunk_opens_only_where_it_was_sealed() {
    let secret = new_file_secret();
    let sealed = encrypt_chunk(&secret, "file-1", 0, 2, b"hello").expect("encrypt");
    assert_eq!(sealed.len(), 5 + 16);
    assert_eq!(decrypt_chunk(&secret, "file-1", 0, 2, &sealed).expect("decrypt"), b"hello");
    assert!(decrypt_chunk(&secret, "file-1", 1, 2, &sealed).is_err());
    assert!(decrypt_chunk(&secret, "file-1", 0, 3, &sealed).is_err());
    assert!(decrypt_chunk(&secret, "file-other", 0, 2, &sealed).is_err());
    assert!(decrypt_chunk(&new_file_secret(), "file-1", 0, 2, &sealed).is_err());
    let mut bad = sealed.clone();
    bad[0] ^= 1;
    assert!(decrypt_chunk(&secret, "file-1", 0, 2, &bad).is_err());
}

#[test]
fn error_messages_carry_their_detail() {
    assert_eq!(MlsError::File("x".into()).message(), "file crypto: x");
    assert_eq!(
        MlsError::Evicted.message(),
        "this device was removed from the group"
    );
}

#[test]
fn fingerprints_are_stable_grouped_base32() {
    let fp = fingerprint(&[0u8; 32]);
    assert_eq!(fp.len(), 32 + 7);
    assert!(fp.split('-').all(|c| c.len() == 4));
    assert_eq!(fp, fingerprint(&[0u8; 32]));
    assert_ne!(fp, fingerprint(&[1u8; 32]));
}

#[test]
fn fingerprint_of_a_known_key() {
    // SHA-256 of the empty input starts e3b0c442 98fc1c14 9afbf4c8 996fb924 27ae41e4.
    assert_eq!(fingerprint(&[]), "4OYM-IQUY-7QOB-JGX3-6TEJ-S35Z-EQT2-4QPE");
}

#[test]
fn group_list_round_trips_and_refuses_truncation() {
    let ids = vec![b"od-group-1".to_vec(), Vec::new(), b"g2".to_vec()];
    let blob = state_blob(&ids, b"storage");
    assert_eq!(&blob[..4], &[0, 0, 0, 3]);
    let (back, rest) = split_state(&blob).expect("split");
    assert_eq!(back, ids);
    assert_eq!(rest, b"storage");
    assert_eq!(
        split_state(&blob[..3]),
        Err(MlsError::State("truncated state".into()))
    );
    assert_eq!(
        split_state(&blob[..6]),
        Err(MlsError::State("truncated group list".into()))
    );
    assert_eq!(
        split_state(&blob[..10]),
        Err(MlsError::State("truncated group id".into()))
    );
    let (none, all) = split_state(&[0, 0, 0, 0, 9]).expect("empty list");
    assert!(none.is_empty());
    assert_eq!(all, vec![9]);
}

#[test]
fn a_multi_chunk_file_reads_back_chunk_by_chunk() {
    let secret = new_file_secret();
    let data: Vec<u8> = (0..(2 * CHUNK_SIZE + 123)).map(|i| (i % 251) as u8).collect();
    let size = data.len() as u64;
    let total = chunk_count(size);
    assert_eq!(total, 3);
    let mut sealed = Vec::new();
    let mut at = 0usize;
    for index in 0..total {
        let n = chunk_plain_len(size, index);
        sealed.extend(encrypt_chunk(&secret, "f1", index, total, &data[at..at + n]).expect("seal"));
        at += n;
    }
    assert_eq!(sealed.len() as u64, encrypted_size(size));
    let mut back = Vec::new();
    let mut at = 0usize;
    for index in 0..total {
        let n = chunk_plain_len(size, index) + 16;
        back.extend(decrypt_chunk(&secret, "f1", index, total, &sealed[at..at + n]).expect("open"));
        at += n;
    }
    assert_eq!(back, data);
    let mut swapped = sealed.clone();
    swapped[..16].copy_from_slice(&sealed[CHUNK_SIZE + 16..CHUNK_SIZE + 32]);
    assert!(decrypt_chunk(&secret, "f1", 0, total, &swapped[..CHUNK_SIZE + 16]).is_err());
    assert!(decrypt_chunk(&secret, "f2", 0, total, &sealed[..CHUNK_SIZE + 16]).is_err());
}

#[test]
fn the_plaintext_hash_runs_over_every_chunk_in_order() {
    let secret = new_file_secret();
    let mut h = new_plain_hasher();
    let a = encrypt_chunk_hashed(&secret, "f", 0, 2, b"ab", &mut h).expect("seal a");
    let b = encrypt_chunk_hashed(&secret, "f", 1, 2, b"c", &mut h).expect("seal b");
    assert_eq!(
        plain_digest_hex(h),
        "ba7816bf8f01cfea414140de5dae2223b00361a396177a9cb410ff61f20015ad"
    );
    let mut back = new_plain_hasher();
    assert!(decrypt_chunk_hashed(&secret, "f", 1, 2, &a, &mut back).is_err());
    assert_eq!(decrypt_chunk_hashed(&secret, "f", 0, 2, &a, &mut back).expect("open a"), b"ab");
    assert_eq!(decrypt_chunk_hashed(&secret, "f", 1, 2, &b, &mut back).expect("open b"), b"c");
    assert_eq!(
        plain_digest_hex(back),
        "ba7816bf8f01cfea414140de5dae2223b00361a396177a9cb410ff61f20015ad"
    );
    assert_eq!(plain_digest_hex(new_plain_hasher()), "e3b0c44298fc1c149afbf4c8996fb92427ae41e4649b934ca495991b7852b855");
}

#[test]
fn the_read_loop_seals_every_chunk_and_stops() {
    assert_eq!(next_chunk_step(0, 0), ChunkStep::SealAndStop);
    assert_eq!(next_chunk_step(0, 3), ChunkStep::Stop);
    assert_eq!(next_chunk_step(10, 3), ChunkStep::SealAndStop);
    assert_eq!(next_chunk_step(CHUNK_SIZE, 0), ChunkStep::SealAndContinue);
    match file_ends_early(7) {
        MlsError::File(m) => assert_eq!(m, "chunk 7: the file ends too early"),
        other => panic!("unexpected {other:?}"),
    }
}
