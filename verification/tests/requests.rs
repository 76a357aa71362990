use media_migrate::asset::{Format, Formats, Image};
use media_migrate::catalog::{bearer_header, catalog_url, CatalogError};
use media_migrate::encoding::encode_image_payload;
use media_migrate::signature::generate_signature;
use media_migrate::uploader::{
    asset_download_url, build_upload_form, current_timestamp, prepare_upload, UploadParameters,
};

fn sample_format(name: &str) -> Format {
    Format {
        ext: ".jpg".to_string(),
        url: format!("/uploads/small_{}.jpg", name),
        hash: format!("small_{}", name),
        mime: "image/jpeg".to_string(),
        name: name.to_string(),
        path: format!("/small_{}.jpg", name),
        size: 12,
        width: 100,
        height: 60,
    }
}

fn sample_image(name: &str) -> Image {
    Image {
        id: 7,
        name: name.to_string(),
        alternative_text: None,
        caption: None,
        width: 800,
        height: 600,
        formats: Formats { small: sample_format(name), thumbnail: sample_format(name) },
        hash: format!("hash_{}", name),
        ext: ".jpg".to_string(),
        mime: "image/jpeg".to_string(),
        size: 1024,
        url: format!("/uploads/{}.jpg", name),
        preview_url: None,
        provider: "local".to_string(),
        provider_metadata: None,
        created_at: "2023-01-01T00:00:00.000Z".to_string(),
        updated_at: "2023-01-01T00:00:00.000Z".to_string(),
        blurhash: "LEHV6nWB2yk8".to_string(),
        placeholder: "p".to_string(),
    }
}

#[test]
fn catalog_endpoint() {
    assert_eq!(catalog_url("https://cms.example.com"), "https://cms.example.com/api/upload/files");
}

#[test]
fn authorization_header() {
    assert_eq!(bearer_header("tok123"), "Bearer tok123");
}

#[test]
fn catalog_error_labels() {
    assert_eq!(CatalogError::Network.label(), "catalog network failure");
    assert_eq!(CatalogError::Auth.label(), "catalog authentication failure");
    assert_eq!(CatalogError::MalformedBody.label(), "catalog response malformed");
}

#[test]
fn download_location_joins_base_and_path() {
    let image = sample_image("photo");
    assert_eq!(
        asset_download_url("https://cms.example.com", &image),
        "https://cms.example.com/uploads/photo.jpg"
    );
}

#[test]
fn payload_is_base64_in_data_uri() {
    assert_eq!(
        encode_image_payload(b"hello world"),
        "data:image/jpg;base64,aGVsbG8gd29ybGQ="
    );
    assert_eq!(encode_image_payload(b""), "data:image/jpg;base64,");
    assert_eq!(encode_image_payload(&[0x00, 0xff, 0x10]), "data:image/jpg;base64,AP8Q");
}

#[test]
fn form_fields_in_transmission_order() {
    let image = sample_image("photo");
    let form = prepare_upload(&image, b"hello world", "media", "key1", "s3cr3t", 1700000000);
    let keys: Vec<&str> = form.iter().map(|f| f.0.as_str()).collect();
    assert_eq!(
        keys,
        vec![
            "folder",
            "file",
            "public_id",
            "api_key",
            "timestamp",
            "display_name",
            "signature",
            "api_secret"
        ]
    );
    assert_eq!(form[0].1, "media");
    assert_eq!(form[1].1, "data:image/jpg;base64,aGVsbG8gd29ybGQ=");
    assert_eq!(form[2].1, "photo");
    assert_eq!(form[3].1, "key1");
    assert_eq!(form[4].1, "1700000000");
    assert_eq!(form[5].1, "photo");
    assert_eq!(form[6].1, "39573b27a2261a5bffe4d3654cac6455bf61aa57");
    assert_eq!(form[7].1, "s3cr3t");
}

#[test]
fn form_timestamp_matches_signed_timestamp() {
    let image = sample_image("photo");
    let timestamp = 1234567890;
    let form = prepare_upload(&image, b"abc", "media", "key1", "s3cr3t", timestamp);
    assert_eq!(form[4].1, "1234567890");
    let resigned = generate_signature("media", "photo", "photo", timestamp, "s3cr3t");
    assert_eq!(form[6].1, resigned);
}

#[test]
fn upload_parameters_derive_both_identifiers_from_name() {
    let image = sample_image("picture");
    let params = UploadParameters::for_asset(&image, "media", 42);
    assert_eq!(params.folder, "media");
    assert_eq!(params.display_name, "picture");
    assert_eq!(params.public_id, "picture");
    assert_eq!(params.timestamp, 42);
}

#[test]
fn build_form_uses_given_payload() {
    let params = UploadParameters {
        folder: "media".to_string(),
        display_name: "photo".to_string(),
        public_id: "photo".to_string(),
        timestamp: 1700000000,
    };
    let form = build_upload_form(&params, "key1", "s3cr3t", "payload".to_string());
    assert_eq!(form.len(), 8);
    assert_eq!(form[1].1, "payload");
    assert_eq!(form[6].1, "39573b27a2261a5bffe4d3654cac6455bf61aa57");
}

#[test]
fn timestamp_is_wall_clock_seconds() {
    let a = current_timestamp();
    let b = current_timestamp();
    assert!(a > 0);
    assert!(b >= a);
}
