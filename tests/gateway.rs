use account_abstraction::hashing::{append_bytes, bytes_eq};
use account_abstraction::identity::{bind, verify_claim};
use account_abstraction::nonce::{check_nonce, NonceBook, NonceDecision, NonceFault};
use account_abstraction::pallet::{
    tag, Admission, Config, Error, Event, Pallet, RemoteCall, LONGEVITY,
};
use account_abstraction::priority::{calls_per_block_of, priority, BlockLimits, Weight};
use account_abstraction::recovery::recover;
use account_abstraction::typed_data::{
    call_struct_hash_for, domain_separator, message_hash, uint_word_of, TypedDataDomain,
};
use k256::ecdsa::SigningKey;

const PREFIX: u16 = 42;
const SERVICE_FEE: u128 = 10;

fn hex(s: &str) -> Vec<u8> {
    (0..s.len()).step_by(2).map(|i| u8::from_str_radix(&s[i..i + 2], 16).unwrap()).collect()
}

fn domain() -> TypedDataDomain {
    let mut chain_id = vec![0u8; 32];
    chain_id[31] = 7;
    TypedDataDomain {
        name: b"Gateway".to_vec(),
        version: b"1".to_vec(),
        chain_id,
        verifying_contract: vec![0x11u8; 20],
    }
}

fn limits() -> BlockLimits {
    BlockLimits {
        max_weight: Weight { ref_time: 2_000_000_000_000, proof_size: 5_000_000 },
        max_length: 5_000_000,
    }
}

fn config() -> Config {
    Config { domain: domain(), ss58_prefix: PREFIX, service_fee: SERVICE_FEE, limits: limits() }
}

fn key(seed: u8) -> SigningKey {
    SigningKey::from_slice(&[seed; 32]).unwrap()
}

fn public_key(sk: &SigningKey) -> Vec<u8> {
    sk.verifying_key().to_encoded_point(true).as_bytes().to_vec()
}

fn account(sk: &SigningKey) -> Vec<u8> {
    sp_crypto_hashing::blake2_256(&public_key(sk)).to_vec()
}

fn sign(sk: &SigningKey, digest: &[u8], offset: u8) -> Vec<u8> {
    let (sig, rid) = sk.sign_prehash_recoverable(digest).unwrap();
    let mut out = sig.to_bytes().to_vec();
    out.push(rid.to_byte() + offset);
    out
}

fn signed_call(sk: &SigningKey, who: Vec<u8>, call_data: Vec<u8>, nonce: u64, tip: Option<u128>) -> RemoteCall {
    let signer = account(sk);
    let digest = message_hash(&domain(), PREFIX, &signer, &call_data, nonce);
    let signature = sign(sk, &digest, 27);
    RemoteCall { who, call_data, nonce, signature, tip }
}

#[test]
fn domain_separator_matches_known_vector() {
    let mut chain_id = vec![0u8; 32];
    chain_id[31] = 1;
    let d = TypedDataDomain {
        name: b"Ether Mail".to_vec(),
        version: b"1".to_vec(),
        chain_id,
        verifying_contract: hex("cccccccccccccccccccccccccccccccccccccccc"),
    };
    assert_eq!(
        domain_separator(&d),
        hex("f2cee375fa42b42143804025fc449deafd50cc031ca257e0b194a650a912090f")
    );
}

#[test]
fn uint_word_is_big_endian() {
    let w = uint_word_of(0x0102030405060708);
    assert_eq!(w.len(), 32);
    assert!(w[..24].iter().all(|b| *b == 0));
    assert_eq!(&w[24..], &[1, 2, 3, 4, 5, 6, 7, 8]);
}

#[test]
fn message_hash_is_deterministic_and_sensitive() {
    let who = vec![3u8; 32];
    let other = vec![4u8; 32];
    let data = vec![1u8, 2, 3];
    let base = message_hash(&domain(), PREFIX, &who, &data, 5);
    assert_eq!(base.len(), 32);
    assert_eq!(base, message_hash(&domain(), PREFIX, &who, &data, 5));
    assert_ne!(base, message_hash(&domain(), PREFIX, &who, &data, 6));
    assert_ne!(base, message_hash(&domain(), PREFIX, &other, &data, 5));
    assert_ne!(base, message_hash(&domain(), PREFIX, &who, &vec![1u8, 2, 4], 5));
    assert_ne!(base, message_hash(&domain(), 0, &who, &data, 5));
    let mut d = domain();
    d.chain_id[31] = 8;
    assert_ne!(base, message_hash(&d, PREFIX, &who, &data, 5));
}

#[test]
fn struct_hash_differs_from_its_inputs() {
    let who = vec![3u8; 32];
    let h = call_struct_hash_for(&who, PREFIX, &vec![], 0);
    assert_eq!(h.len(), 32);
    assert_ne!(h, who);
}

#[test]
fn recover_returns_signer_key() {
    let sk = key(9);
    let digest = vec![0x5au8; 32];
    for offset in [0u8, 27u8] {
        let sig = sign(&sk, &digest, offset);
        assert_eq!(recover(&sig, &digest), Some(public_key(&sk)));
    }
}

#[test]
fn recover_with_other_digest_gives_other_key() {
    let sk = key(9);
    let digest = vec![0x5au8; 32];
    let sig = sign(&sk, &digest, 27);
    let mut other = digest.clone();
    other[31] ^= 1;
    assert_ne!(recover(&sig, &other), Some(public_key(&sk)));
}

#[test]
fn recover_rejects_bad_recovery_id_and_malformed_signature() {
    let sk = key(9);
    let digest = vec![0x5au8; 32];
    let mut sig = sign(&sk, &digest, 0);
    sig[64] = 2;
    assert_eq!(recover(&sig, &digest), None);
    sig[64] = 29;
    assert_eq!(recover(&sig, &digest), None);
    let zero = vec![0u8; 65];
    assert_eq!(recover(&zero, &digest), None);
}

#[test]
fn bind_round_trip() {
    for seed in [1u8, 2, 77] {
        let sk = key(seed);
        let digest = vec![seed; 32];
        let sig = sign(&sk, &digest, 27);
        let pk = recover(&sig, &digest).unwrap();
        assert_eq!(bind(&pk), account(&sk));
        assert!(verify_claim(&account(&sk), &pk));
        assert!(!verify_claim(&vec![0u8; 32], &pk));
    }
}

#[test]
fn byte_helpers() {
    let mut v = vec![1u8];
    append_bytes(&mut v, &[2, 3]);
    assert_eq!(v, vec![1, 2, 3]);
    assert!(bytes_eq(&[1, 2], &[1, 2]));
    assert!(!bytes_eq(&[1, 2], &[1, 3]));
    assert!(!bytes_eq(&[1], &[1, 2]));
}

#[test]
fn nonce_check_cases() {
    assert_eq!(check_nonce(5, 4), Err(NonceFault::Stale));
    assert_eq!(check_nonce(5, 5), Ok(NonceDecision { next_counter: 6, depends_on: None }));
    assert_eq!(check_nonce(5, 9), Ok(NonceDecision { next_counter: 5, depends_on: Some(8) }));
    assert_eq!(check_nonce(u64::MAX, u64::MAX), Err(NonceFault::Exhausted));
}

#[test]
fn nonce_monotonicity() {
    let mut book = NonceBook::new();
    let a = [1u8; 32];
    let b = [2u8; 32];
    assert_eq!(book.get(&a), 0);
    assert_eq!(book.check(&a, 1), Ok(NonceDecision { next_counter: 0, depends_on: Some(0) }));
    assert_eq!(book.get(&a), 0);
    assert_eq!(book.check(&a, 0), Ok(NonceDecision { next_counter: 1, depends_on: None }));
    assert_eq!(book.check(&a, 0), Err(NonceFault::Stale));
    assert_eq!(book.get(&a), 1);
    assert_eq!(book.get(&b), 0);
    book.set(&b, 40);
    book.set(&b, 41);
    assert_eq!(book.get(&b), 41);
    assert_eq!(book.get(&a), 1);
}

#[test]
fn priority_exact_values() {
    let l = limits();
    let w = Weight { ref_time: 1_000_000_000, proof_size: 1000 };
    // by weight: min(2000, 5000) = 2000; by length: 5_000_000 / 100 = 50_000
    assert_eq!(calls_per_block_of(&l, &w, 100), 2000);
    assert_eq!(priority(&l, &w, 100, 0), 2000);
    assert_eq!(priority(&l, &w, 100, 4), 10_000);
    // a zero weight is raised to 1; a zero length is taken as 1
    let zero = Weight { ref_time: 0, proof_size: 0 };
    assert_eq!(calls_per_block_of(&l, &zero, 0), 5_000_000);
    // larger than the block: one per block
    let huge = Weight { ref_time: u64::MAX, proof_size: u64::MAX };
    assert_eq!(calls_per_block_of(&l, &huge, u64::MAX), 1);
}

#[test]
fn priority_zero_block_weight_is_ignored() {
    let l = BlockLimits { max_weight: Weight { ref_time: 0, proof_size: 0 }, max_length: 100 };
    let w = Weight { ref_time: 5, proof_size: 5 };
    assert_eq!(calls_per_block_of(&l, &w, 10), 1);
    let l2 = BlockLimits { max_weight: Weight { ref_time: 100, proof_size: 0 }, max_length: 100 };
    assert_eq!(calls_per_block_of(&l2, &w, 1), 20);
}

#[test]
fn priority_orders_by_tip_and_saturates() {
    let l = limits();
    let w = Weight { ref_time: 1_000_000_000, proof_size: 1000 };
    assert!(priority(&l, &w, 100, 1) < priority(&l, &w, 100, 2));
    assert!(priority(&l, &w, 100, 0) < priority(&l, &w, 100, 1));
    assert_eq!(priority(&l, &w, 100, u128::MAX), u64::MAX);
    assert_eq!(priority(&l, &w, 100, u64::MAX as u128), u64::MAX);
}

#[test]
fn tag_is_account_then_little_endian_nonce() {
    let who = vec![9u8; 32];
    let t = tag(&who, 0x0102);
    assert_eq!(&t[..32], &who[..]);
    assert_eq!(&t[32..], &[2, 1, 0, 0, 0, 0, 0, 0]);
}

#[test]
fn end_to_end_admission_and_execution() {
    let sk = key(5);
    let who = account(&sk);
    let mut pallet = Pallet::new(config());
    let mut balance: u128 = 1_000;
    let est_fee: u128 = 100;
    let req = signed_call(&sk, who.clone(), vec![0u8, 1], 0, Some(7));

    let admission = pallet.validate_unsigned(&req).unwrap();
    assert_eq!(admission, Admission { provides: tag(&who, 0), depends_on: None });
    assert_eq!(pallet.nonces.get(&who), 1);

    balance -= SERVICE_FEE;
    let weight = Weight { ref_time: 1_000_000_000, proof_size: 1000 };
    let valid = pallet
        .finish_validation(&who, admission, true, Some(est_fee), Some(balance), &weight, 2, Some(7))
        .unwrap();
    assert_eq!(valid.priority, 8 * 2000);
    assert_eq!(valid.depends_on, None);
    assert_eq!(valid.longevity, LONGEVITY);
    assert!(valid.propagate);
    assert_eq!(pallet.events, vec![Event::ServiceFeePaid { who: who.clone(), fee: SERVICE_FEE }]);

    assert_eq!(pallet.remote_call_from_evm_chain(&req), Ok(()));
    let actual_fee: u128 = 80;
    balance -= actual_fee;
    assert_eq!(pallet.record_dispatch(&who, true, true, actual_fee, Some(7)), Ok(()));
    assert_eq!(balance, 1_000 - SERVICE_FEE - 80);
    let paid: Vec<&Event> =
        pallet.events.iter().filter(|e| matches!(e, Event::TransactionFeePaid { .. })).collect();
    assert_eq!(paid, vec![&Event::TransactionFeePaid { who: who.clone(), actual_fee, tip: 7 }]);
    assert_eq!(pallet.events[1], Event::CallDone { who: who.clone(), succeeded: true });
}

#[test]
fn resubmitted_nonce_is_stale() {
    let sk = key(5);
    let who = account(&sk);
    let mut pallet = Pallet::new(config());
    let req = signed_call(&sk, who.clone(), vec![0u8, 1], 0, None);
    assert!(pallet.validate_unsigned(&req).is_ok());
    let weight = Weight { ref_time: 1, proof_size: 1 };
    let admission = Admission { provides: tag(&who, 0), depends_on: None };
    assert!(pallet.finish_validation(&who, admission, true, Some(1), Some(50), &weight, 2, None).is_ok());
    let events_before = pallet.events.clone();
    assert_eq!(pallet.validate_unsigned(&req), Err(Error::NonceError(NonceFault::Stale)));
    assert_eq!(pallet.events, events_before);
    assert_eq!(pallet.nonces.get(&who), 1);
}

#[test]
fn future_nonce_is_admitted_with_dependency() {
    let sk = key(6);
    let who = account(&sk);
    let mut pallet = Pallet::new(config());
    let req = signed_call(&sk, who.clone(), vec![], 3, None);
    let admission = pallet.validate_unsigned(&req).unwrap();
    assert_eq!(admission, Admission { provides: tag(&who, 3), depends_on: Some(tag(&who, 2)) });
    assert_eq!(pallet.nonces.get(&who), 0);
}

#[test]
fn claimed_caller_mismatch_is_rejected_before_any_charge() {
    let sk = key(5);
    let impostor = vec![0xeeu8; 32];
    let mut pallet = Pallet::new(config());
    let req = signed_call(&sk, impostor.clone(), vec![4u8], 0, None);
    assert_eq!(pallet.validate_unsigned(&req), Err(Error::AccountMismatch));
    assert_eq!(pallet.remote_call_from_evm_chain(&req), Err(Error::AccountMismatch));
    assert!(pallet.events.is_empty());
    assert_eq!(pallet.nonces.get(&impostor), 0);
}

#[test]
fn tampered_signature_is_invalid() {
    let sk = key(5);
    let who = account(&sk);
    let mut pallet = Pallet::new(config());
    let mut req = signed_call(&sk, who, vec![4u8], 0, None);
    req.signature[64] = 40;
    assert_eq!(pallet.validate_unsigned(&req), Err(Error::InvalidSignature));
    assert_eq!(pallet.remote_call_from_evm_chain(&req), Err(Error::InvalidSignature));
}

#[test]
fn payment_failures() {
    let who = vec![1u8; 32];
    let weight = Weight { ref_time: 1, proof_size: 1 };
    let adm = || Admission { provides: tag(&who, 0), depends_on: None };
    let mut pallet = Pallet::new(config());
    assert_eq!(
        pallet.finish_validation(&who, adm(), false, Some(1), Some(1), &weight, 1, None),
        Err(Error::PaymentError)
    );
    assert!(pallet.events.is_empty());
    assert_eq!(
        pallet.finish_validation(&who, adm(), true, Some(11), Some(10), &weight, 1, None),
        Err(Error::PaymentError)
    );
    assert_eq!(
        pallet.finish_validation(&who, adm(), true, None, Some(10), &weight, 1, None),
        Err(Error::PaymentError)
    );
    assert_eq!(pallet.events.len(), 2);
    assert!(pallet.finish_validation(&who, adm(), true, Some(10), Some(10), &weight, 1, None).is_ok());
    assert_eq!(pallet.record_dispatch(&who, false, false, 3, None), Err(Error::PaymentError));
    assert_eq!(pallet.events.last(), Some(&Event::CallDone { who: who.clone(), succeeded: false }));
}
