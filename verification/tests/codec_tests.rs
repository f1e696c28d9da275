use hashsig::{HashSigSHA3, PublicKey, SecretKey, Signature, SigError};
use hashsig::params::{CHAIN_MAX, DIGEST_LEN, NUM_CHECKSUM_CHUNKS, NUM_CHUNKS, NUM_MSG_CHUNKS};

#[test]
fn public_key_round_trip() {
    let scheme = HashSigSHA3::new(Some(8));
    let (pk, mut sk) = scheme.key_gen(Some(b"rt".to_vec()), 0).unwrap();
    let bytes = pk.to_bytes();
    // parameters-id (1 family byte + 8 lifetime bytes) plus a 32-byte root.
    assert_eq!(bytes.len(), 41);
    assert_eq!(bytes[0], 1);
    let pk2 = PublicKey::from_bytes(&bytes).expect("decoding");
    assert_eq!(pk2.to_bytes(), bytes);
    let msg = b"still works".to_vec();
    let sig = scheme.sign(&mut sk, 0, &msg).unwrap();
    assert!(scheme.verify(&pk2, 0, &msg, &sig));
}

#[test]
fn secret_key_round_trip() {
    let scheme = HashSigSHA3::new(Some(8));
    let (pk, sk) = scheme.key_gen(Some(b"rt".to_vec()), 2).unwrap();
    let bytes = sk.to_bytes();
    // parameters-id, 32-byte derivation state, and two window bounds.
    assert_eq!(bytes.len(), 57);
    let mut sk2 = SecretKey::from_bytes(&bytes).expect("decoding");
    assert_eq!(sk2.get_prepared_start(), 2);
    assert_eq!(sk2.get_prepared_end(), 8);
    assert_eq!(sk2.to_bytes(), bytes);
    let msg = b"restored".to_vec();
    let sig = scheme.sign(&mut sk2, 3, &msg).unwrap();
    assert!(scheme.verify(&pk, 3, &msg, &sig));
}

#[test]
fn secret_key_consumption_does_not_travel() {
    // The wire format carries the derivation state and window bounds
    // only: a key restored from bytes has its whole window present
    // again, consumed epochs included.
    let scheme = HashSigSHA3::new(Some(8));
    let (pk, mut sk) = scheme.key_gen(Some(b"rt".to_vec()), 0).unwrap();
    let msg = b"used".to_vec();
    let _ = scheme.sign(&mut sk, 1, &msg).unwrap();
    assert_eq!(
        scheme.sign(&mut sk, 1, &msg).unwrap_err(),
        SigError::EpochAlreadyUsed
    );
    let mut sk2 = SecretKey::from_bytes(&sk.to_bytes()).unwrap();
    let sig = scheme.sign(&mut sk2, 1, &msg).expect("unit present after decode");
    assert!(scheme.verify(&pk, 1, &msg, &sig));
}

#[test]
fn signature_round_trip() {
    let scheme = HashSigSHA3::new(Some(8));
    let (pk, mut sk) = scheme.key_gen(Some(b"rt".to_vec()), 0).unwrap();
    let msg = b"wire".to_vec();
    let sig = scheme.sign(&mut sk, 4, &msg).unwrap();
    let bytes = sig.to_bytes();
    // epoch (8) + 68 reveals of 32 bytes + depth-3 path of 32-byte nodes.
    assert_eq!(bytes.len(), 8 + NUM_CHUNKS * DIGEST_LEN + 3 * DIGEST_LEN);
    assert_eq!(bytes.len(), 8 + 68 * 32 + 3 * 32);
    assert_eq!(sig.byte_len(), bytes.len());
    let sig2 = Signature::from_bytes(&bytes).expect("decoding");
    assert_eq!(sig2.epoch, 4);
    assert_eq!(sig2.to_bytes(), bytes);
    assert!(scheme.verify(&pk, 4, &msg, &sig2));
}

#[test]
fn public_key_decode_errors() {
    assert_eq!(
        PublicKey::from_bytes(&Vec::new()).unwrap_err(),
        SigError::DecodeError
    );
    // Right length, unknown family tag.
    let mut bad = vec![0u8; 41];
    bad[1] = 8;
    assert_eq!(PublicKey::from_bytes(&bad).unwrap_err(), SigError::DecodeError);
    bad[0] = 3;
    assert_eq!(PublicKey::from_bytes(&bad).unwrap_err(), SigError::DecodeError);
    // Known family but zero lifetime.
    let mut zero = vec![0u8; 41];
    zero[0] = 1;
    assert_eq!(PublicKey::from_bytes(&zero).unwrap_err(), SigError::DecodeError);
    // Truncated.
    let scheme = HashSigSHA3::new(Some(8));
    let (pk, _sk) = scheme.key_gen(Some(b"x".to_vec()), 0).unwrap();
    let mut bytes = pk.to_bytes();
    bytes.pop();
    assert_eq!(PublicKey::from_bytes(&bytes).unwrap_err(), SigError::DecodeError);
}

#[test]
fn secret_key_decode_errors() {
    let scheme = HashSigSHA3::new(Some(8));
    let (_pk, sk) = scheme.key_gen(Some(b"x".to_vec()), 0).unwrap();
    let good = sk.to_bytes();
    // Truncated.
    let mut short = good.clone();
    short.pop();
    assert_eq!(SecretKey::from_bytes(&short).unwrap_err(), SigError::DecodeError);
    // Window start beyond its end.
    let mut crossed = good.clone();
    crossed[41] = 9;
    assert_eq!(SecretKey::from_bytes(&crossed).unwrap_err(), SigError::DecodeError);
    // Window end beyond the lifetime.
    let mut past = good.clone();
    past[49] = 9;
    assert_eq!(SecretKey::from_bytes(&past).unwrap_err(), SigError::DecodeError);
    // Unknown family tag.
    let mut fam = good.clone();
    fam[0] = 7;
    assert_eq!(SecretKey::from_bytes(&fam).unwrap_err(), SigError::DecodeError);
}

#[test]
fn signature_decode_errors() {
    assert_eq!(
        Signature::from_bytes(&vec![0u8; 10]).unwrap_err(),
        SigError::DecodeError
    );
    // One byte short of the fixed part.
    assert_eq!(
        Signature::from_bytes(&vec![0u8; 2183]).unwrap_err(),
        SigError::DecodeError
    );
    // Path bytes not a multiple of the digest size.
    assert_eq!(
        Signature::from_bytes(&vec![0u8; 2184 + 31]).unwrap_err(),
        SigError::DecodeError
    );
    // A path longer than any supported tree is refused.
    assert_eq!(
        Signature::from_bytes(&vec![0u8; 2184 + 32 * 40]).unwrap_err(),
        SigError::DecodeError
    );
    // An empty path decodes (a lifetime of one epoch has no path).
    assert!(Signature::from_bytes(&vec![0u8; 2184]).is_ok());
}

#[test]
fn single_epoch_lifetime() {
    let scheme = HashSigSHA3::new(Some(1));
    let (pk, mut sk) = scheme.key_gen(Some(b"one".to_vec()), 0).unwrap();
    assert_eq!(sk.get_prepared_start(), 0);
    assert_eq!(sk.get_prepared_end(), 1);
    let msg = b"only".to_vec();
    let sig = scheme.sign(&mut sk, 0, &msg).unwrap();
    assert_eq!(sig.to_bytes().len(), 2184);
    assert!(scheme.verify(&pk, 0, &msg, &sig));
    assert_eq!(
        scheme.sign(&mut sk, 0, &msg).unwrap_err(),
        SigError::EpochAlreadyUsed
    );
}

#[test]
fn parameter_set_is_consistent() {
    assert_eq!(NUM_MSG_CHUNKS + NUM_CHECKSUM_CHUNKS, NUM_CHUNKS);
    assert_eq!(CHAIN_MAX, 3);
    assert_eq!(DIGEST_LEN, 32);
    // The checksum of all-zero digits fits its chunks: 3 * 64 < 4^4.
    assert!(3 * NUM_MSG_CHUNKS < 256);
}
