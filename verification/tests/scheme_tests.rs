use hashsig::{HashSigSHA3, HashSigPoseidon, SigError};

#[test]
fn scenario_sign_verify_lifetime_1000() {
    let scheme = HashSigSHA3::new(Some(1000));
    assert_eq!(scheme.get_lifetime(), 1000);
    let (pk, mut sk) = scheme
        .key_gen(Some(b"fixed".to_vec()), 0)
        .expect("key generation");
    assert_eq!(sk.get_prepared_start(), 0);
    assert_eq!(sk.get_prepared_end(), 100);
    assert!(sk.is_prepared_for_epoch(0));
    assert!(sk.is_prepared_for_epoch(99));
    assert!(!sk.is_prepared_for_epoch(100));

    let msg = b"hello".to_vec();
    let sig = scheme.sign(&mut sk, 0, &msg).expect("signing epoch 0");
    assert_eq!(sig.epoch, 0);
    assert!(scheme.verify(&pk, 0, &msg, &sig));

    // A different message must not verify under the same signature.
    let other = b"world".to_vec();
    assert!(!scheme.verify(&pk, 0, &other, &sig));

    // The signature is bound to its epoch.
    assert!(!scheme.verify(&pk, 1, &msg, &sig));
}

#[test]
fn key_generation_is_deterministic() {
    let scheme = HashSigSHA3::new(Some(300));
    let (pk1, mut sk1) = scheme.key_gen(Some(b"fixed".to_vec()), 0).unwrap();
    let (pk2, mut sk2) = scheme.key_gen(Some(b"fixed".to_vec()), 0).unwrap();
    assert_eq!(pk1.to_bytes(), pk2.to_bytes());
    assert_eq!(sk1.to_bytes(), sk2.to_bytes());

    let msg = b"hello".to_vec();
    let sig1 = scheme.sign(&mut sk1, 0, &msg).unwrap();
    let sig2 = scheme.sign(&mut sk2, 0, &msg).unwrap();
    assert_eq!(sig1.to_bytes(), sig2.to_bytes());
    assert!(scheme.verify(&pk1, 0, &msg, &sig2));
    assert!(scheme.verify(&pk2, 0, &msg, &sig1));
}

#[test]
fn one_time_enforcement() {
    let scheme = HashSigSHA3::new(Some(16));
    let (pk, mut sk) = scheme.key_gen(Some(b"seed".to_vec()), 0).unwrap();
    let msg = b"once".to_vec();
    let sig = scheme.sign(&mut sk, 3, &msg).expect("first use of epoch 3");
    assert!(scheme.verify(&pk, 3, &msg, &sig));
    let again = scheme.sign(&mut sk, 3, &msg);
    assert_eq!(again.unwrap_err(), SigError::EpochAlreadyUsed);
    // Other epochs are untouched by the rejected call.
    assert!(scheme.sign(&mut sk, 4, &msg).is_ok());
}

#[test]
fn window_discipline() {
    let scheme = HashSigSHA3::new(Some(16));
    let (_pk, mut sk) = scheme.key_gen(Some(b"seed".to_vec()), 2).unwrap();
    // The default step caps the initial window at the lifetime.
    assert_eq!(sk.get_prepared_start(), 2);
    assert_eq!(sk.get_prepared_end(), 16);
    let msg = b"msg".to_vec();
    assert_eq!(
        scheme.sign(&mut sk, 1, &msg).unwrap_err(),
        SigError::EpochNotPrepared
    );
    assert_eq!(
        scheme.sign(&mut sk, 16, &msg).unwrap_err(),
        SigError::EpochNotPrepared
    );
    assert_eq!(
        scheme.sign(&mut sk, 40, &msg).unwrap_err(),
        SigError::EpochNotPrepared
    );
    // The window itself is intact.
    assert!(scheme.sign(&mut sk, 2, &msg).is_ok());
}

#[test]
fn advance_window_monotonic() {
    let scheme = HashSigSHA3::new(Some(250));
    let (_pk, mut sk) = scheme.key_gen(Some(b"seed".to_vec()), 0).unwrap();
    assert_eq!(sk.get_prepared_end(), 100);
    // Shrinking the window is rejected and changes nothing.
    assert_eq!(sk.advance(50).unwrap_err(), SigError::InvalidWindow);
    assert_eq!(sk.get_prepared_end(), 100);
    // Passing the lifetime is rejected too.
    assert_eq!(sk.advance(251).unwrap_err(), SigError::InvalidWindow);
    assert_eq!(sk.get_prepared_end(), 100);
    // A valid extension moves the end forward.
    sk.advance(180).unwrap();
    assert_eq!(sk.get_prepared_end(), 180);
    // The default step caps at the lifetime.
    sk.advance_preparation().unwrap();
    assert_eq!(sk.get_prepared_end(), 250);
    sk.advance_preparation().unwrap();
    assert_eq!(sk.get_prepared_end(), 250);
    assert_eq!(sk.get_prepared_start(), 0);
}

#[test]
fn signing_newly_advanced_epochs() {
    let scheme = HashSigSHA3::new(Some(200));
    let (pk, mut sk) = scheme.key_gen(Some(b"seed".to_vec()), 0).unwrap();
    let msg = b"late".to_vec();
    assert_eq!(
        scheme.sign(&mut sk, 150, &msg).unwrap_err(),
        SigError::EpochNotPrepared
    );
    sk.advance(200).unwrap();
    let sig = scheme.sign(&mut sk, 150, &msg).unwrap();
    assert!(scheme.verify(&pk, 150, &msg, &sig));
}

#[test]
fn key_gen_rejects_out_of_range_activation() {
    let scheme = HashSigSHA3::new(Some(16));
    let r = scheme.key_gen(Some(b"seed".to_vec()), 16);
    assert_eq!(r.err().unwrap(), SigError::EpochOutOfRange);
    let r2 = scheme.key_gen(Some(b"seed".to_vec()), 40);
    assert_eq!(r2.err().unwrap(), SigError::EpochOutOfRange);
}

#[test]
fn random_seed_key_gen() {
    let scheme = HashSigSHA3::new(Some(8));
    let (pk1, _sk1) = scheme.key_gen(None, 0).expect("random key generation");
    let (pk2, _sk2) = scheme.key_gen(None, 0).expect("random key generation");
    // Two draws from the entropy source give distinct keys.
    assert_ne!(pk1.to_bytes(), pk2.to_bytes());
}

#[test]
fn different_seeds_give_different_keys() {
    let scheme = HashSigSHA3::new(Some(8));
    let (pk1, _s1) = scheme.key_gen(Some(b"aaaa".to_vec()), 0).unwrap();
    let (pk2, _s2) = scheme.key_gen(Some(b"bbbb".to_vec()), 0).unwrap();
    assert_ne!(pk1.to_bytes(), pk2.to_bytes());
}

#[test]
fn families_are_separated() {
    let sha3 = HashSigSHA3::new(Some(8));
    let pos = HashSigPoseidon::new(Some(8));
    let (pk_a, mut sk_a) = sha3.key_gen(Some(b"fixed".to_vec()), 0).unwrap();
    let (pk_b, _sk_b) = pos.key_gen(Some(b"fixed".to_vec()), 0).unwrap();
    // Same seed, different hash family: different root commitments.
    assert_ne!(pk_a.to_bytes()[9..], pk_b.to_bytes()[9..]);
    let msg = b"cross".to_vec();
    let sig = sha3.sign(&mut sk_a, 0, &msg).unwrap();
    assert!(sha3.verify(&pk_a, 0, &msg, &sig));
    assert!(!pos.verify(&pk_b, 0, &msg, &sig));
}

#[test]
fn default_lifetime() {
    let scheme = HashSigSHA3::new(None);
    assert_eq!(scheme.get_lifetime(), 1 << 20);
    let pos = HashSigPoseidon::new(None);
    assert_eq!(pos.get_lifetime(), 1 << 20);
    let small = HashSigPoseidon::new(Some(5));
    assert_eq!(small.get_lifetime(), 5);
}

#[test]
fn poseidon_scheme_signs_and_verifies() {
    let scheme = HashSigPoseidon::new(Some(16));
    let (pk, mut sk) = scheme.key_gen(Some(b"p".to_vec()), 0).unwrap();
    assert_eq!(pk.to_bytes().len(), 41);
    assert_eq!(pk.to_bytes()[0], 2);
    let msg = b"permutation".to_vec();
    let sig = scheme.sign(&mut sk, 7, &msg).unwrap();
    assert!(scheme.verify(&pk, 7, &msg, &sig));
    assert!(!scheme.verify(&pk, 7, &b"other".to_vec(), &sig));
    assert_eq!(
        scheme.sign(&mut sk, 7, &msg).unwrap_err(),
        SigError::EpochAlreadyUsed
    );
}

#[test]
fn tampered_signature_fails() {
    let scheme = HashSigSHA3::new(Some(8));
    let (pk, mut sk) = scheme.key_gen(Some(b"t".to_vec()), 0).unwrap();
    let msg = b"tamper".to_vec();
    let mut sig = scheme.sign(&mut sk, 2, &msg).unwrap();
    assert!(scheme.verify(&pk, 2, &msg, &sig));
    // Flip one byte of one revealed chain value.
    sig.reveals[5][0] ^= 1;
    assert!(!scheme.verify(&pk, 2, &msg, &sig));
}

#[test]
fn epoch_field_out_of_lifetime_fails() {
    let scheme = HashSigSHA3::new(Some(8));
    let (pk, mut sk) = scheme.key_gen(Some(b"e".to_vec()), 0).unwrap();
    let msg = b"m".to_vec();
    let mut sig = scheme.sign(&mut sk, 1, &msg).unwrap();
    sig.epoch = 20;
    assert!(!scheme.verify(&pk, 20, &msg, &sig));
}
