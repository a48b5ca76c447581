use event_ledger::block::{meets_difficulty, Block, DIFFICULTY};
use event_ledger::signing::{Signature, SigningKey};
use event_ledger::utils::now_as_millis;

const SECRET: &str = "c9afa9d845ba75166b5c215767b1d6934e50c3db36e89b127b8a622b120f6721";

fn random_signing_key() -> SigningKey {
    let key = p256::ecdsa::SigningKey::random(&mut rand::thread_rng());
    SigningKey::from_bytes(key.to_bytes().to_vec())
}

fn fixed_signing_key() -> SigningKey {
    SigningKey::from_bytes(hex::decode(SECRET).unwrap())
}

fn sample_block() -> Block {
    Block::new(
        5,
        1700000000033,
        "héllo".to_string(),
        "ab".to_string(),
        "patient5".to_string(),
        "visit".to_string(),
    )
    .unwrap()
}

#[test]
fn test_block_creation() {
    let signing_key = random_signing_key();
    let index = 0;
    let timestamp = now_as_millis().unwrap();
    let data = "Genesis Block".to_string();
    let previous_hash = "0".to_string();
    let patient_id = "patient0".to_string();
    let event_type = "Genesis".to_string();

    let mut block =
        Block::new(index, timestamp, data, previous_hash, patient_id, event_type).unwrap();
    block.sign_block(&signing_key);

    assert_eq!(block.index, index);
    assert_eq!(block.timestamp, timestamp);
    assert!(!block.hash.is_empty());
    assert!(block.signature.is_some());
}

#[test]
fn test_hash_uniqueness() {
    let signing_key = random_signing_key();
    let mut block_a = Block::new(
        1,
        now_as_millis().unwrap(),
        "Block A".to_string(),
        "0".to_string(),
        "patient1".to_string(),
        "Test A".to_string(),
    )
    .unwrap();
    let mut block_b = Block::new(
        2,
        now_as_millis().unwrap(),
        "Block B".to_string(),
        "0".to_string(),
        "patient2".to_string(),
        "Test B".to_string(),
    )
    .unwrap();

    block_a.sign_block(&signing_key);
    block_b.sign_block(&signing_key);

    assert_ne!(block_a.hash, block_b.hash);
}

#[test]
fn test_hash_consistency() {
    let signing_key = random_signing_key();
    let index = 3;
    let timestamp = now_as_millis().unwrap();
    let data = "Consistency Test".to_string();
    let previous_hash = "0".to_string();
    let patient_id = "patient3".to_string();
    let event_type = "Consistency".to_string();

    let mut block = Block::new(
        index,
        timestamp,
        data.clone(),
        previous_hash.clone(),
        patient_id.clone(),
        event_type.clone(),
    )
    .unwrap();
    block.sign_block(&signing_key);
    let expected_hash = block.hash.clone();

    let mut block_recreated =
        Block::new(index, timestamp, data, previous_hash, patient_id, event_type).unwrap();
    block_recreated.sign_block(&signing_key);

    assert_eq!(block_recreated.hash, expected_hash);
}

#[test]
fn digest_of_known_fields() {
    assert_eq!(
        Block::calculate_hash(1, 2, "abc", "0", 3),
        "a8f47cf1e99bbc972c370ddf20c1d099f49d599d999b465cc8ae35547fdca6e7"
    );
    assert_eq!(
        Block::calculate_hash(0, 0, "", "", 0),
        "66687aadf862bd776c8fc18b8e9f8e20089714856ee233b3902a591d0d5f2925"
    );
    assert_eq!(
        Block::calculate_hash(u64::MAX, u128::MAX, "x", "y", u64::MAX),
        "f2872f32ca424828cfa5f33e4f9b6f2fef27e3be50267821bc49f8875608c657"
    );
}

#[test]
fn digest_is_sixty_four_lowercase_hex_digits() {
    let digest = Block::calculate_hash(9, 8, "payload", "previous", 7);
    assert_eq!(digest.len(), 64);
    assert!(digest.chars().all(|c| c.is_ascii_digit() || ('a'..='f').contains(&c)));
}

#[test]
fn digest_is_the_same_on_every_call() {
    let first = Block::calculate_hash(4, 1700000000000, "Visit", "00ab", 17);
    let second = Block::calculate_hash(4, 1700000000000, "Visit", "00ab", 17);
    assert_eq!(first, second);
}

#[test]
fn digest_changes_with_each_field() {
    let base = Block::calculate_hash(4, 1700000000000, "Visit", "00ab", 17);
    assert_ne!(base, Block::calculate_hash(5, 1700000000000, "Visit", "00ab", 17));
    assert_ne!(base, Block::calculate_hash(4, 1700000000001, "Visit", "00ab", 17));
    assert_ne!(base, Block::calculate_hash(4, 1700000000000, "Visit!", "00ab", 17));
    assert_ne!(base, Block::calculate_hash(4, 1700000000000, "Visit", "00ac", 17));
    assert_ne!(base, Block::calculate_hash(4, 1700000000000, "Visit", "00ab", 18));
}

#[test]
fn difficulty_asks_for_four_leading_zeros() {
    assert_eq!(DIFFICULTY, 4);
    assert!(meets_difficulty("0000"));
    assert!(meets_difficulty("00000"));
    assert!(meets_difficulty("0000ffff"));
    assert!(meets_difficulty("0000é"));
}

#[test]
fn difficulty_is_not_met_by_short_or_other_digests() {
    assert!(!meets_difficulty(""));
    assert!(!meets_difficulty("0"));
    assert!(!meets_difficulty("000"));
    assert!(!meets_difficulty("0001"));
    assert!(!meets_difficulty("1000"));
    assert!(!meets_difficulty("000a0"));
    assert!(!meets_difficulty("a0000"));
    assert!(!meets_difficulty("é0000"));
    assert!(!meets_difficulty("000O"));
}

#[test]
fn mining_finds_the_first_nonce() {
    let found = Block::mine_block(0, 1700000000060, "Genesis Block", "0");
    let (hash, nonce) = found.unwrap();
    assert_eq!(nonce, 371);
    assert_eq!(hash, "00002f31c39f0a7f36d3a16cb899ec291bc7ea49c4b8f3d5b07cd85918592095");
    for earlier in 0..nonce {
        let digest = Block::calculate_hash(0, 1700000000060, "Genesis Block", "0", earlier);
        assert!(!digest.starts_with("0000"));
    }
}

#[test]
fn mining_works_on_a_large_timestamp() {
    let timestamp: u128 = 170141183460469231731687303715884118076;
    let (hash, nonce) = Block::mine_block(3, timestamp, "big", "0").unwrap();
    assert_eq!(nonce, 1738);
    assert_eq!(hash, "00004e79ff1fd9f195d776b339da92bfa2ef14c564ce7da9acfb07a18e7075a1");
}

#[test]
fn a_new_block_is_mined_and_unsigned() {
    let block = sample_block();
    assert_eq!(block.index, 5);
    assert_eq!(block.timestamp, 1700000000033);
    assert_eq!(block.data, "héllo");
    assert_eq!(block.previous_hash, "ab");
    assert_eq!(block.patient_id, "patient5");
    assert_eq!(block.event_type, "visit");
    assert_eq!(block.nonce, 224);
    assert_eq!(block.hash, "00008db0e85d6928dc96e1b915b5254b2beb557a3159b15350e2b907c6304eb2");
    assert!(block.signature.is_none());
}

#[test]
fn a_mined_digest_starts_with_four_zeros() {
    let block = Block::new(
        1,
        now_as_millis().unwrap(),
        "Patient data".to_string(),
        "0".to_string(),
        "patient123".to_string(),
        "checkup".to_string(),
    )
    .unwrap();
    assert!(block.hash.starts_with("0000"));
    assert_eq!(
        block.hash,
        Block::calculate_hash(
            block.index,
            block.timestamp,
            &block.data,
            &block.previous_hash,
            block.nonce
        )
    );
}

#[test]
fn the_signed_message_joins_the_fields_in_order() {
    let block = sample_block();
    assert_eq!(block.signing_message(), "51700000000033hélloab224".as_bytes().to_vec());
    assert_eq!(
        hex::encode(block.signing_message()),
        "353137303030303030303030333368c3a96c6c6f6162323234"
    );
}

#[test]
fn the_signed_message_leaves_out_the_digest_and_the_metadata() {
    let mut block = sample_block();
    let message = block.signing_message();
    block.hash = "ffff".to_string();
    block.patient_id = "someone else".to_string();
    block.event_type = "other".to_string();
    assert_eq!(block.signing_message(), message);
}

#[test]
fn signing_stores_the_signature_of_the_message() {
    let mut block = sample_block();
    block.sign_block(&fixed_signing_key());
    assert_eq!(
        hex::encode(&block.signature.as_ref().unwrap().bytes),
        "bb06fa2bf02c72354cf8c1a23ac0142a5832b327b3a058af6d0715790584547326e64f60285031a86d272c5cba6300fdff3be4d77a3cc95d527a73862293165a"
    );
}

#[test]
fn signing_changes_no_other_field() {
    let mut block = sample_block();
    block.sign_block(&fixed_signing_key());
    assert_eq!(block.index, 5);
    assert_eq!(block.timestamp, 1700000000033);
    assert_eq!(block.data, "héllo");
    assert_eq!(block.previous_hash, "ab");
    assert_eq!(block.hash, "00008db0e85d6928dc96e1b915b5254b2beb557a3159b15350e2b907c6304eb2");
    assert_eq!(block.nonce, 224);
    assert_eq!(block.patient_id, "patient5");
    assert_eq!(block.event_type, "visit");
}

#[test]
fn a_signed_block_verifies_under_the_matching_key() {
    let signing_key = random_signing_key();
    let verifying_key = signing_key.verifying_key().unwrap();
    let mut block = sample_block();
    block.sign_block(&signing_key);
    assert!(block.verify_signature(&verifying_key));
}

#[test]
fn a_signed_block_does_not_verify_under_another_key() {
    let signing_key = random_signing_key();
    let other = fixed_signing_key().verifying_key().unwrap();
    let mut block = sample_block();
    block.sign_block(&signing_key);
    assert!(!block.verify_signature(&other));
}

#[test]
fn an_unsigned_block_does_not_verify() {
    let block = sample_block();
    let verifying_key = fixed_signing_key().verifying_key().unwrap();
    assert!(block.signature.is_none());
    assert!(!block.verify_signature(&verifying_key));
}

#[test]
fn changing_a_signed_field_breaks_the_signature() {
    let signing_key = fixed_signing_key();
    let verifying_key = signing_key.verifying_key().unwrap();
    let mut block = sample_block();
    block.sign_block(&signing_key);
    assert!(block.verify_signature(&verifying_key));

    let mut changed = block.clone();
    changed.data = "hello".to_string();
    assert!(!changed.verify_signature(&verifying_key));

    let mut changed = block.clone();
    changed.index = 6;
    assert!(!changed.verify_signature(&verifying_key));

    let mut changed = block.clone();
    changed.timestamp += 1;
    assert!(!changed.verify_signature(&verifying_key));

    let mut changed = block.clone();
    changed.previous_hash = "ac".to_string();
    assert!(!changed.verify_signature(&verifying_key));

    let mut changed = block.clone();
    changed.nonce += 1;
    assert!(!changed.verify_signature(&verifying_key));

    block.data = "hello".to_string();
    block.data = "héllo".to_string();
    assert!(block.verify_signature(&verifying_key));
}

#[test]
fn changing_an_unsigned_field_keeps_the_signature() {
    let signing_key = fixed_signing_key();
    let verifying_key = signing_key.verifying_key().unwrap();
    let mut block = sample_block();
    block.sign_block(&signing_key);
    block.patient_id = "someone else".to_string();
    block.event_type = "other".to_string();
    block.hash = "ffff".to_string();
    assert!(block.verify_signature(&verifying_key));
}

#[test]
fn signing_again_replaces_the_signature() {
    let first_key = fixed_signing_key();
    let second_key = random_signing_key();
    let mut block = sample_block();
    block.sign_block(&first_key);
    block.sign_block(&second_key);
    assert!(!block.verify_signature(&first_key.verifying_key().unwrap()));
    assert!(block.verify_signature(&second_key.verifying_key().unwrap()));
}

#[test]
fn an_unusable_key_leaves_the_block_unsigned() {
    let mut block = sample_block();
    block.sign_block(&fixed_signing_key());
    block.sign_block(&SigningKey::from_bytes(vec![0; 32]));
    assert!(block.signature.is_none());
}

#[test]
fn a_foreign_signature_does_not_verify() {
    let signing_key = fixed_signing_key();
    let verifying_key = signing_key.verifying_key().unwrap();
    let mut block = sample_block();
    block.signature = Some(signing_key.sign(b"something else").unwrap());
    assert!(!block.verify_signature(&verifying_key));
    block.signature = Some(Signature::from_bytes(vec![1, 2, 3]));
    assert!(!block.verify_signature(&verifying_key));
}

#[test]
fn a_block_renders_as_one_line() {
    let block = sample_block();
    assert_eq!(
        block.to_string(),
        "Block 5 [00008db0e85d6928dc96e1b915b5254b2beb557a3159b15350e2b907c6304eb2]: héllo at: 1700000000033 with previous hash: ab, nonce: 224, patient ID: patient5, event type: visit"
    );
}
