use hashcheck::digest::{digest_of_bytes, DigestState};

const EMPTY_MD5: &str = "d41d8cd98f00b204e9800998ecf8427e";

#[test]
fn empty_input_digest_is_fixed() {
    assert_eq!(digest_of_bytes(&[], 1024), EMPTY_MD5);
    assert_eq!(digest_of_bytes(&[], 1), EMPTY_MD5);
}

#[test]
fn known_vector_abc() {
    assert_eq!(
        digest_of_bytes(b"abc", 4096),
        "900150983cd24fb0d6963f7d28e17f72"
    );
}

#[test]
fn known_vector_message_digest() {
    assert_eq!(
        digest_of_bytes(b"message digest", 4096),
        "f96b697d7cb7938d525a2f31aaf161d0"
    );
}

#[test]
fn matches_the_md5_crate() {
    let data: Vec<u8> = (0..40_000u32).map(|i| (i % 251) as u8).collect();
    let expected = hex::encode(<md5::Md5 as md5::Digest>::digest(&data));
    assert_eq!(digest_of_bytes(&data, 8192), expected);
}

#[test]
fn block_size_does_not_change_digest() {
    let data: Vec<u8> = (0..10_000u32).map(|i| (i * 7 % 256) as u8).collect();
    let reference = digest_of_bytes(&data, 1024);
    for block_size in [1usize, 3, 1000, 8192, 1 << 20] {
        assert_eq!(digest_of_bytes(&data, block_size), reference);
    }
}

#[test]
fn streaming_matches_one_shot() {
    let data: Vec<u8> = (0..5_000u32).map(|i| (i * 13 % 256) as u8).collect();
    let mut state = DigestState::new();
    let mut fed = 0usize;
    for chunk in [100usize, 1, 2048, 5_000 - 100 - 1 - 2048] {
        state.update(&data[fed..fed + chunk]);
        fed += chunk;
    }
    assert_eq!(state.finalize_hex(), digest_of_bytes(&data, 4096));
}

#[test]
fn fresh_state_digests_empty_stream() {
    let state = DigestState::new();
    assert_eq!(state.finalize_hex(), EMPTY_MD5);
}
