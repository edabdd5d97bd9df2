use cync::crypto::{derive_key, Cipher, Undecryptable};

fn salt() -> Vec<u8> {
    (0..20).collect()
}

const HASH: [u8; 32] = [
    123, 225, 17, 9, 36, 67, 29, 176, 115, 47, 237, 102, 11, 73, 23, 45,
    119, 129, 32, 166, 48, 2, 202, 19, 116, 41, 13, 212, 94, 129, 57, 108,
];

#[test]
fn key_is_derived_with_sixty_thousand_rounds() {
    assert_eq!(derive_key(b"hunter2", &salt()), HASH);
    assert_eq!(Cipher::derive("hunter2", &salt()).key, HASH);
    assert_ne!(derive_key(b"hunter3", &salt()), HASH);
}

#[test]
fn known_ciphertext_stands_behind_its_nonce() {
    let cipher = Cipher { key: [0; 32] };
    let message = cipher.seal_with(&[0; 12], &[0; 16]);
    let mut expected = vec![0; 12];
    expected.extend([
        0xce, 0xa7, 0x40, 0x3d, 0x4d, 0x60, 0x6b, 0x6e, 0x07, 0x4e, 0xc5, 0xd3, 0xba, 0xf3, 0x9d,
        0x18, 0xd0, 0xd1, 0xc8, 0xa7, 0x99, 0x99, 0x6b, 0xf0, 0x26, 0x5b, 0x98, 0xb5, 0xd4, 0x8a,
        0xb9, 0x19,
    ]);
    assert_eq!(message, expected);
}

#[test]
fn what_is_sealed_opens_again() {
    let cipher = Cipher { key: [3; 32] };
    for plaintext in [vec![], vec![1], vec![5; 1000]] {
        let message = cipher.seal(&plaintext);
        assert_eq!(message.len(), 12 + plaintext.len() + 16);
        assert_eq!(cipher.open(&message), Ok(plaintext));
    }
}

#[test]
fn nonces_are_fresh() {
    let cipher = Cipher { key: [3; 32] };
    assert_ne!(cipher.seal(b"same"), cipher.seal(b"same"));
}

#[test]
fn what_was_changed_does_not_open() {
    let cipher = Cipher { key: [3; 32] };
    let mut message = cipher.seal(b"text");
    message[13] ^= 1;
    assert_eq!(cipher.open(&message), Err(Undecryptable));
}

#[test]
fn another_key_does_not_open() {
    let message = Cipher { key: [3; 32] }.seal(b"text");
    assert_eq!(Cipher { key: [4; 32] }.open(&message), Err(Undecryptable));
}

#[test]
fn nonce_alone_does_not_open() {
    assert_eq!(Cipher { key: [3; 32] }.open(&[0; 12]), Err(Undecryptable));
}
