use scooby::commitment::derive_under_key;
use secp256k1::hashes::sha256;
use secp256k1::{Message, Secp256k1, SecretKey};

fn payload() -> Vec<u8> {
    "data".to_string().as_bytes().to_vec()
}

#[test]
fn commitment_under_a_key_is_repeatable() {
    let key = [0xcdu8; 32];
    let first = derive_under_key(&payload(), &key);
    let second = derive_under_key(&payload(), &key);
    assert!(first.is_some());
    assert_eq!(first, second);
}

#[test]
fn commitment_under_a_key_is_the_signature_of_the_hash() {
    let key = [0xcdu8; 32];
    let secp = Secp256k1::new();
    let msg = Message::from_hashed_data::<sha256::Hash>(payload().as_slice());
    let secret = SecretKey::from_slice(&key).unwrap();
    let expected = secp.sign_ecdsa(&msg, &secret).to_string().as_bytes().to_vec();
    assert_eq!(derive_under_key(&payload(), &key), Some(expected));
}

#[test]
fn commitment_under_a_key_has_the_shape_of_signature_text() {
    let text = derive_under_key(&payload(), &[0x11u8; 32]).unwrap();
    assert!(!text.is_empty());
    assert_eq!(text.len() % 2, 0);
    assert!(text.len() <= 144);
    assert!(text.iter().all(|b| b.is_ascii_digit() || (b'a'..=b'f').contains(b)));
    assert_ne!(text, payload());
    assert_ne!(text, vec![0x11u8; 32]);
}

#[test]
fn commitment_depends_on_payload_and_key() {
    let key = [0xcdu8; 32];
    let other_key = [0xceu8; 32];
    let base = derive_under_key(&payload(), &key);
    assert_ne!(derive_under_key(&vec![100u8, 97u8, 116u8, 98u8], &key), base);
    assert_ne!(derive_under_key(&payload(), &other_key), base);
    assert_ne!(derive_under_key(&Vec::new(), &key), base);
}

#[test]
fn bytes_that_are_no_secret_key_give_no_commitment() {
    assert_eq!(derive_under_key(&payload(), &[0u8; 32]), None);
    assert_eq!(derive_under_key(&payload(), &[0xffu8; 32]), None);
    let mut one = [0u8; 32];
    one[31] = 1;
    assert!(derive_under_key(&payload(), &one).is_some());
}
