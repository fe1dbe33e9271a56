use zippy::zip_crypto::{ZipCrypto, ZipCryptoError, ZipCryptoReader};

#[test]
fn test_correct_password() {
    let password = "test".to_string();
    let file_crc32 = 0x5579202F;
    let encryption_bytes = vec![
        0xCA, 0x2D, 0x1D, 0x27, 0x19, 0x19, 0x63, 0x43, 0x77, 0x9A, 0x71, 0x76,
    ];

    let zip_crypto_reader_result = ZipCryptoReader::new(password, file_crc32, encryption_bytes);

    assert!(zip_crypto_reader_result.is_ok());
}

#[test]
fn test_incorrect_password() {
    let password = "wrong_password".to_string();
    let file_crc32 = 0x5579202F;
    let encryption_bytes = vec![
        0xCA, 0x2D, 0x1D, 0x27, 0x19, 0x19, 0x63, 0x43, 0x77, 0x9A, 0x71, 0x76,
    ];

    let zip_crypto_reader_err_result =
        ZipCryptoReader::new(password, file_crc32, encryption_bytes).unwrap_err();

    assert_eq!(
        zip_crypto_reader_err_result,
        ZipCryptoError::IncorrectPassword
    );
}

#[test]
fn test_initial_key_words() {
    let zip_crypto = ZipCrypto::new();

    assert_eq!(zip_crypto.key0, 0x12345678);
    assert_eq!(zip_crypto.key1, 0x23456789);
    assert_eq!(zip_crypto.key2, 0x34567890);
}

#[test]
fn test_key_schedule_over_password() {
    let mut zip_crypto = ZipCrypto::new();
    for byte in "test".bytes() {
        zip_crypto.update_keys(byte);
    }

    assert_eq!(zip_crypto.key0, 0x7712F9DE);
    assert_eq!(zip_crypto.key1, 0x485AFD7B);
    assert_eq!(zip_crypto.key2, 0x5DED1E32);
    assert_eq!(zip_crypto.stream_byte(), 0xDF);
}

#[test]
fn test_process_byte_round_trip() {
    // Processing is an XOR with the keystream, so feeding the output of one
    // state through an identical state returns the original byte.
    let mut forward = ZipCrypto::new();
    for byte in "key".bytes() {
        forward.update_keys(byte);
    }
    let stream = forward.stream_byte();
    let encoded = forward.process_byte(0x41);
    assert_eq!(encoded, stream ^ 0x41);
}

#[test]
fn test_payload_shorter_than_salt_is_io_error() {
    let result = ZipCryptoReader::new("test".to_string(), 0x5579202F, vec![0xCA, 0x2D]);

    assert!(matches!(result.unwrap_err(), ZipCryptoError::IOError(_)));
}
