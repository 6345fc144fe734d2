use p2p_chat::sodium::{
    ciphertext_len, open_outcome, plaintext_len, AuthFailure, Nonce, PublicKey, SecretKey,
    MAC_BYTES,
};

#[test]
fn ciphertext_is_longer_by_the_tag() {
    assert_eq!(MAC_BYTES, 16);
    assert_eq!(ciphertext_len(5), 21);
    assert_eq!(ciphertext_len(0), 16);
}

#[test]
fn ciphertext_shorter_than_tag_is_rejected() {
    assert_eq!(plaintext_len(15), Err(AuthFailure));
    assert_eq!(plaintext_len(0), Err(AuthFailure));
    assert_eq!(plaintext_len(16), Ok(0));
    assert_eq!(plaintext_len(21), Ok(5));
}

#[test]
fn open_status_decides_outcome() {
    assert_eq!(open_outcome(0, vec![1, 2]), Ok(vec![1, 2]));
    assert_eq!(open_outcome(-1, vec![1, 2]), Err(AuthFailure));
}

#[test]
fn keys_and_nonce_hold_their_bytes() {
    let pk = PublicKey::new([1; 32]);
    let sk = SecretKey::new([2; 32]);
    let n = Nonce::new([3; 24]);
    assert_eq!(pk.key(), &[1u8; 32]);
    assert_eq!(sk.key(), &[2u8; 32]);
    assert_eq!(n.value(), &[3u8; 24]);
    assert!(pk.same_as(&pk.duplicate()));
    assert!(!pk.same_as(&PublicKey::new([9; 32])));
}
