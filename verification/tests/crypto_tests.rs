//! The envelope cryptography: seal/open round trips, signature round
//! trips, and the deterministic name hash.

use vault::crypto::{
    decrypt_bytes, encrypt_bytes, get_key_pair, hash_password, sign_file, verify_file_signature,
};

/// A PKCS#8-encoded 2048-bit RSA private key generated for these tests.
fn rsa_test_key_bytes() -> Vec<u8> {
    vec![
        48, 130, 4, 189, 2, 1, 0, 48, 13, 6, 9, 42, 134, 72, 134, 247,
        13, 1, 1, 1, 5, 0, 4, 130, 4, 167, 48, 130, 4, 163, 2, 1,
        0, 2, 130, 1, 1, 0, 184, 146, 34, 145, 65, 6, 208, 87, 86, 40,
        59, 83, 88, 199, 47, 223, 108, 11, 125, 82, 95, 242, 34, 32, 238, 124,
        151, 243, 139, 251, 156, 189, 154, 234, 144, 130, 123, 75, 236, 170, 3, 178,
        148, 88, 250, 124, 51, 208, 35, 166, 202, 107, 204, 67, 110, 60, 40, 40,
        10, 170, 77, 137, 200, 228, 26, 165, 171, 148, 233, 71, 107, 102, 189, 67,
        243, 23, 5, 115, 176, 108, 71, 19, 51, 207, 30, 220, 46, 213, 185, 107,
        65, 41, 140, 173, 34, 157, 28, 105, 98, 138, 146, 75, 142, 206, 30, 101,
        34, 119, 145, 243, 110, 140, 89, 64, 139, 69, 173, 97, 155, 66, 10, 79,
        235, 226, 62, 119, 31, 235, 204, 112, 133, 154, 118, 203, 143, 182, 212, 10,
        179, 247, 13, 67, 121, 201, 232, 188, 125, 222, 100, 189, 41, 57, 63, 67,
        210, 210, 118, 146, 115, 254, 45, 44, 152, 154, 148, 77, 167, 202, 33, 237,
        173, 8, 17, 162, 17, 75, 151, 81, 141, 31, 81, 83, 239, 118, 215, 111,
        25, 235, 57, 244, 220, 14, 5, 5, 33, 83, 29, 202, 33, 58, 85, 8,
        120, 162, 105, 186, 97, 192, 153, 26, 111, 105, 69, 183, 246, 171, 204, 35,
        52, 171, 61, 17, 191, 229, 1, 179, 111, 44, 253, 162, 2, 248, 25, 162,
        102, 230, 60, 110, 92, 155, 172, 77, 134, 128, 207, 72, 13, 81, 161, 144,
        148, 251, 1, 40, 200, 135, 2, 3, 1, 0, 1, 2, 130, 1, 0, 72,
        142, 81, 254, 109, 228, 162, 212, 34, 111, 112, 90, 228, 100, 113, 34, 80,
        83, 247, 241, 0, 252, 171, 131, 236, 156, 152, 19, 74, 173, 31, 193, 189,
        123, 134, 81, 116, 236, 180, 221, 100, 212, 183, 210, 126, 173, 130, 164, 200,
        207, 17, 117, 236, 247, 121, 7, 54, 245, 254, 179, 82, 5, 223, 46, 36,
        119, 138, 10, 224, 229, 141, 135, 246, 209, 22, 103, 175, 97, 250, 49, 166,
        131, 26, 243, 201, 250, 222, 130, 112, 0, 132, 190, 51, 170, 0, 24, 105,
        9, 216, 142, 6, 210, 163, 17, 206, 11, 13, 208, 153, 84, 107, 217, 202,
        96, 64, 31, 164, 247, 224, 211, 198, 64, 2, 199, 142, 172, 191, 164, 4,
        72, 97, 204, 42, 213, 106, 191, 32, 125, 5, 200, 21, 17, 112, 75, 54,
        252, 124, 45, 205, 28, 133, 196, 162, 226, 249, 228, 227, 5, 57, 230, 29,
        220, 125, 9, 181, 159, 211, 74, 180, 149, 160, 68, 221, 103, 28, 186, 247,
        177, 150, 72, 184, 126, 232, 207, 122, 223, 102, 125, 254, 188, 106, 160, 154,
        134, 32, 95, 204, 157, 30, 191, 173, 175, 169, 142, 81, 249, 223, 182, 133,
        120, 153, 107, 105, 197, 177, 252, 182, 125, 4, 158, 132, 128, 58, 19, 248,
        150, 61, 55, 111, 12, 63, 78, 236, 143, 237, 164, 151, 89, 129, 146, 198,
        17, 186, 74, 101, 95, 141, 106, 137, 15, 81, 193, 31, 46, 242, 41, 2,
        129, 129, 0, 227, 79, 17, 56, 166, 178, 249, 26, 227, 144, 187, 68, 94,
        210, 190, 15, 200, 157, 203, 109, 120, 109, 187, 103, 213, 195, 197, 235, 61,
        224, 184, 131, 38, 113, 229, 216, 153, 85, 84, 65, 196, 168, 196, 152, 18,
        30, 201, 218, 196, 104, 57, 228, 161, 66, 176, 35, 92, 68, 0, 18, 195,
        102, 35, 177, 59, 120, 26, 21, 164, 127, 145, 60, 133, 47, 207, 56, 128,
        95, 223, 43, 88, 121, 169, 147, 207, 27, 76, 245, 108, 80, 93, 80, 214,
        177, 97, 200, 233, 74, 111, 244, 91, 185, 209, 133, 204, 155, 93, 223, 10,
        77, 224, 172, 156, 225, 46, 237, 133, 60, 79, 132, 232, 187, 159, 236, 186,
        65, 20, 125, 2, 129, 129, 0, 207, 222, 23, 188, 137, 244, 240, 130, 226,
        243, 121, 162, 205, 211, 72, 62, 237, 86, 21, 45, 247, 109, 31, 2, 27,
        3, 137, 16, 99, 227, 91, 112, 76, 8, 47, 151, 70, 144, 56, 82, 20,
        201, 144, 148, 252, 98, 10, 20, 162, 248, 155, 167, 175, 154, 161, 43, 81,
        236, 20, 30, 58, 4, 211, 21, 5, 209, 225, 130, 215, 156, 139, 253, 43,
        239, 195, 35, 220, 187, 98, 233, 37, 125, 86, 232, 245, 16, 211, 98, 11,
        230, 144, 135, 90, 60, 125, 130, 2, 129, 235, 148, 93, 159, 253, 68, 90,
        207, 170, 111, 105, 141, 146, 0, 34, 150, 16, 22, 218, 218, 183, 53, 245,
        10, 58, 219, 95, 40, 244, 83, 2, 129, 128, 44, 219, 92, 149, 166, 103,
        233, 58, 194, 47, 188, 148, 232, 117, 132, 38, 79, 59, 188, 122, 84, 234,
        170, 177, 250, 0, 81, 93, 115, 239, 149, 217, 227, 203, 84, 69, 99, 52,
        240, 148, 173, 255, 116, 20, 98, 119, 10, 244, 142, 15, 215, 100, 227, 225,
        234, 42, 128, 57, 183, 29, 252, 203, 122, 61, 174, 115, 172, 10, 27, 85,
        69, 79, 1, 37, 135, 42, 42, 67, 65, 34, 39, 170, 146, 169, 101, 148,
        136, 162, 98, 6, 149, 243, 174, 250, 128, 70, 138, 171, 50, 222, 176, 255,
        65, 118, 187, 2, 234, 10, 106, 217, 37, 126, 74, 211, 49, 84, 148, 23,
        107, 197, 217, 187, 180, 250, 157, 98, 220, 109, 2, 129, 129, 0, 172, 87,
        54, 214, 218, 138, 121, 222, 10, 204, 82, 204, 232, 89, 132, 76, 167, 249,
        247, 21, 101, 78, 211, 166, 171, 63, 3, 36, 211, 172, 108, 227, 110, 38,
        91, 78, 208, 242, 65, 191, 203, 252, 82, 35, 52, 29, 20, 190, 135, 96,
        23, 173, 175, 170, 68, 117, 230, 54, 21, 119, 250, 34, 133, 223, 168, 51,
        155, 5, 32, 62, 106, 210, 60, 219, 76, 175, 47, 19, 45, 174, 159, 166,
        139, 168, 25, 135, 25, 186, 240, 162, 248, 177, 63, 223, 103, 47, 163, 100,
        148, 45, 46, 114, 183, 73, 53, 1, 120, 13, 103, 54, 57, 22, 99, 150,
        135, 64, 107, 179, 106, 179, 17, 182, 169, 149, 184, 15, 252, 129, 2, 129,
        128, 21, 233, 86, 226, 63, 146, 2, 190, 236, 36, 76, 92, 146, 94, 243,
        30, 7, 88, 173, 248, 177, 117, 161, 61, 212, 36, 118, 240, 250, 78, 229,
        248, 91, 132, 155, 81, 28, 119, 84, 228, 70, 114, 113, 198, 178, 142, 157,
        57, 251, 170, 58, 227, 214, 55, 245, 210, 75, 60, 96, 183, 163, 246, 100,
        89, 91, 49, 75, 175, 119, 109, 131, 113, 99, 231, 51, 105, 182, 22, 239,
        159, 170, 12, 5, 65, 141, 134, 44, 38, 170, 184, 185, 78, 35, 54, 54,
        216, 4, 3, 188, 202, 176, 124, 154, 245, 160, 178, 161, 170, 201, 194, 136,
        53, 240, 202, 237, 82, 19, 156, 66, 17, 196, 201, 22, 88, 60, 58, 53,
        2,
    ]
}

#[test]
fn seal_then_open_returns_the_body() {
    let body = b"attack at dawn".to_vec();
    let password = "hunter42".to_string();
    let (nonce, ct) = encrypt_bytes(body.clone(), password.clone()).unwrap();
    assert_eq!(ct.len(), body.len() + 16);
    assert_ne!(&ct[..body.len()], &body[..]);
    let opened = decrypt_bytes(ct, password, nonce).unwrap();
    assert_eq!(opened, body);
}

#[test]
fn open_with_wrong_password_fails() {
    let body = b"attack at dawn".to_vec();
    let (nonce, ct) = encrypt_bytes(body, "hunter42".to_string()).unwrap();
    assert!(decrypt_bytes(ct, "hunter43".to_string(), nonce).is_err());
}

#[test]
fn open_with_wrong_nonce_fails() {
    let body = b"attack at dawn".to_vec();
    let (nonce, ct) = encrypt_bytes(body, "hunter42".to_string()).unwrap();
    let mut wrong = nonce;
    wrong[0] ^= 1;
    assert!(decrypt_bytes(ct, "hunter42".to_string(), wrong).is_err());
}

#[test]
fn open_rejects_tampered_ciphertext() {
    let body = b"attack at dawn".to_vec();
    let (nonce, mut ct) = encrypt_bytes(body, "hunter42".to_string()).unwrap();
    ct[3] ^= 0x40;
    assert!(decrypt_bytes(ct, "hunter42".to_string(), nonce).is_err());
}

#[test]
fn empty_body_round_trips() {
    let (nonce, ct) = encrypt_bytes(Vec::new(), "hunter42".to_string()).unwrap();
    assert_eq!(ct.len(), 16);
    assert_eq!(decrypt_bytes(ct, "hunter42".to_string(), nonce).unwrap(), Vec::<u8>::new());
}

#[test]
fn signature_round_trips() {
    let key = get_key_pair(&rsa_test_key_bytes()).unwrap();
    let body = b"contents".to_vec();
    let sig = sign_file(&body, b"hello.txt", &key).unwrap();
    assert_eq!(sig.len(), 256);
    assert!(verify_file_signature(&body, b"hello.txt", &key, &sig).unwrap());
}

#[test]
fn signature_is_deterministic() {
    let key = get_key_pair(&rsa_test_key_bytes()).unwrap();
    let body = b"contents".to_vec();
    let one = sign_file(&body, b"hello.txt", &key).unwrap();
    let two = sign_file(&body, b"hello.txt", &key).unwrap();
    assert_eq!(one, two);
}

#[test]
fn signature_rejects_other_body_name_or_bytes() {
    let key = get_key_pair(&rsa_test_key_bytes()).unwrap();
    let body = b"contents".to_vec();
    let sig = sign_file(&body, b"hello.txt", &key).unwrap();
    let other_body = b"contentz".to_vec();
    assert!(!verify_file_signature(&other_body, b"hello.txt", &key, &sig).unwrap());
    assert!(!verify_file_signature(&body, b"other.txt", &key, &sig).unwrap());
    let mut bad = sig.clone();
    bad[10] ^= 1;
    assert!(!verify_file_signature(&body, b"hello.txt", &key, &bad).unwrap());
}

#[test]
fn bad_key_bytes_are_rejected() {
    let r = get_key_pair(&vec![1, 2, 3]);
    assert!(matches!(r, Err(vault::crypto::CryptoError::BadPrivateKey)));
}

#[test]
fn name_hash_is_deterministic_across_calls() {
    let one = hash_password("hunter42".to_string(), "hello.txt".to_string());
    let two = hash_password("hunter42".to_string(), "hello.txt".to_string());
    assert_eq!(one, two);
    assert!(!one.is_empty());
    assert_ne!(one, "hello.txt");
}

#[test]
fn name_hash_depends_on_salt_and_name() {
    let base = hash_password("hunter42".to_string(), "hello.txt".to_string());
    let other_salt = hash_password("hunter43".to_string(), "hello.txt".to_string());
    let other_name = hash_password("hunter42".to_string(), "other.txt".to_string());
    assert_ne!(base, other_salt);
    assert_ne!(base, other_name);
}
