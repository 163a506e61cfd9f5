use crypter::caesar;

const PLAIN: &str = "The red fox, jumped, over the lazy dog! 0123456789";
const CYPHER: &[u8] = b"DRO BON PYH, TEWZON, YFOB DRO VKJI NYQ! 0123456789";
const KEY: u8 = 10;

#[test]
fn caesar_test_encrypt() {
    let mut cypher = Vec::with_capacity(PLAIN.len());

    caesar::encrypt(0, PLAIN.as_bytes(), &mut cypher).expect("Failed to encrypt plain-text.");
    assert_eq!(
        cypher,
        PLAIN.to_uppercase().as_bytes(),
        "Incorrect cypher-text."
    );

    cypher.clear();
    caesar::encrypt(KEY, PLAIN.as_bytes(), &mut cypher).expect("Failed to encrypt plain-text.");
    assert_eq!(cypher, CYPHER, "Incorrect cypher-text.");
}

#[test]
fn caesar_test_decrypt() {
    let mut plain = Vec::with_capacity(PLAIN.len());

    caesar::decrypt(0, PLAIN.to_uppercase().as_bytes(), &mut plain)
        .expect("Failed to decrypt cypher-text.");
    assert_eq!(
        plain,
        PLAIN.to_uppercase().as_bytes(),
        "Incorrect plain-text."
    );

    plain.clear();
    caesar::decrypt(KEY, CYPHER, &mut plain).expect("Failed to decrypt cypher-text.");
    assert_eq!(
        plain,
        PLAIN.to_uppercase().as_bytes(),
        "Incorrect plain-text."
    );
}

#[test]
fn caesar_round_trip_all_keys() {
    for key in 0..=caesar::MAX_KEY {
        let mut cypher = Vec::new();
        caesar::encrypt(key, b"AbcXyz", &mut cypher).expect("Failed to encrypt plain-text.");
        let mut plain = Vec::new();
        caesar::decrypt(key, &cypher, &mut plain).expect("Failed to decrypt cypher-text.");
        assert_eq!(plain, b"ABCXYZ");
    }
}

#[test]
fn caesar_zero_key_uppercases() {
    let mut cypher = Vec::new();
    caesar::encrypt(0, b"Mixed Case 123\r\n\xff!", &mut cypher)
        .expect("Failed to encrypt plain-text.");
    assert_eq!(cypher, b"MIXED CASE 123\r\n\xff!");
}

#[test]
fn caesar_invalid_key_writes_nothing() {
    for key in [26u8, 100, 255] {
        let mut out = Vec::new();
        assert_eq!(
            caesar::encrypt(key, b"abc", &mut out),
            Err(crypter::CrypterError::InvalidKey)
        );
        assert!(out.is_empty());
        assert_eq!(
            caesar::decrypt(key, b"abc", &mut out),
            Err(crypter::CrypterError::InvalidKey)
        );
        assert!(out.is_empty());
    }
}

#[test]
fn caesar_non_alpha_passes_through() {
    let mut cypher = Vec::new();
    caesar::encrypt(10, b"dog! 0123456789", &mut cypher).expect("Failed to encrypt plain-text.");
    assert_eq!(cypher, b"NYQ! 0123456789");
}

#[test]
fn caesar_appends_to_output() {
    let mut out = vec![b'>'];
    caesar::encrypt(1, b"az", &mut out).expect("Failed to encrypt plain-text.");
    assert_eq!(out, b">BA");
}
