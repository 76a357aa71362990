use media_migrate::numeric::u64_to_decimal;
use media_migrate::signature::{bytes_to_hex, generate_signature};

#[test]
fn known_signature_vector() {
    // SHA-1("display_name=photo&folder=media&public_id=photo&timestamp=1700000000s3cr3t")
    let digest = generate_signature("media", "photo", "photo", 1700000000, "s3cr3t");
    assert_eq!(digest, "39573b27a2261a5bffe4d3654cac6455bf61aa57");
}

#[test]
fn second_signature_vector() {
    // SHA-1("display_name=cat&folder=samples&public_id=cat&timestamp=1k")
    let digest = generate_signature("samples", "cat", "cat", 1, "k");
    assert_eq!(digest, "3d790ab33292cf4ed1d0100fdd5d984fbaac87db");
}

#[test]
fn signature_is_deterministic() {
    let a = generate_signature("media", "photo", "photo", 1700000000, "s3cr3t");
    let b = generate_signature("media", "photo", "photo", 1700000000, "s3cr3t");
    assert_eq!(a, b);
}

#[test]
fn signature_changes_with_folder() {
    let digest = generate_signature("media2", "photo", "photo", 1700000000, "s3cr3t");
    assert_eq!(digest, "ad87a11dd0e5a1cf58e4b207d1aaa555638dcbfa");
    assert_ne!(digest, generate_signature("media", "photo", "photo", 1700000000, "s3cr3t"));
}

#[test]
fn signature_changes_with_each_parameter() {
    let base = generate_signature("media", "photo", "photo", 1700000000, "s3cr3t");
    assert_ne!(base, generate_signature("media", "photo2", "photo", 1700000000, "s3cr3t"));
    assert_ne!(base, generate_signature("media", "photo", "photo2", 1700000000, "s3cr3t"));
    assert_ne!(base, generate_signature("media", "photo", "photo", 1700000001, "s3cr3t"));
    assert_ne!(base, generate_signature("media", "photo", "photo", 1700000000, "s3cr3u"));
}

#[test]
fn signature_is_forty_lowercase_hex_chars() {
    let digest = generate_signature("media", "photo", "photo", 1700000000, "s3cr3t");
    assert_eq!(digest.len(), 40);
    assert!(digest.chars().all(|c| c.is_ascii_hexdigit() && !c.is_ascii_uppercase()));
}

#[test]
fn hex_rendering_of_bytes() {
    assert_eq!(bytes_to_hex(&vec![]), "");
    assert_eq!(bytes_to_hex(&vec![0x00, 0x1f, 0xa5, 0xff]), "001fa5ff");
    assert_eq!(bytes_to_hex(&vec![0x09, 0x0a]), "090a");
}

#[test]
fn decimal_rendering() {
    assert_eq!(u64_to_decimal(0), "0");
    assert_eq!(u64_to_decimal(7), "7");
    assert_eq!(u64_to_decimal(10), "10");
    assert_eq!(u64_to_decimal(1700000000), "1700000000");
    assert_eq!(u64_to_decimal(u64::MAX), "18446744073709551615");
}
