use kamn_core::digest::tagged_sha256;

#[test]
fn tagged_sha256_labels_the_hex_digest() {
    assert_eq!(
        tagged_sha256("abc", "sha256"),
        "sha256:ba7816bf8f01cfea414140de5dae2223b00361a396177a9cb410ff61f20015ad"
    );
    assert_eq!(
        tagged_sha256("", "x"),
        "x:e3b0c44298fc1c149afbf4c8996fb92427ae41e4649b934ca495991b7852b855"
    );
}
