use furukawa::image::reference::ImageRef;
use furukawa::image::Digest;

#[test]
fn test_valid_digest() {
    let valid = "sha256:e3b0c44298fc1c149afbf4c8996fb92427ae41e4649b934ca495991b7852b855";
    let d = Digest::new(valid);
    assert!(d.is_ok());
    assert_eq!(d.unwrap().as_str(), valid);
}

#[test]
fn test_invalid_digest_prefix() {
    let invalid = "md5:e3b0c44298fc1c149afbf4c8996fb92427ae41e4649b934ca495991b7852b855";
    let d = Digest::new(invalid);
    assert!(d.is_err());
}

#[test]
fn test_invalid_digest_length() {
    let invalid = "sha256:short";
    let d = Digest::new(invalid);
    assert!(d.is_err());
}

#[test]
fn test_invalid_digest_chars() {
    let invalid = "sha256:g3b0c44298fc1c149afbf4c8996fb92427ae41e4649b934ca495991b7852b855";
    let d = Digest::new(invalid);
    assert!(d.is_err());
}

#[test]
fn digest_rejects_upper_case_surroundings_and_line_ends() {
    let hex = "e3b0c44298fc1c149afbf4c8996fb92427ae41e4649b934ca495991b7852b855";
    assert!(Digest::new(&format!("sha256:{}", hex.to_uppercase())).is_err());
    assert!(Digest::new(&format!(" sha256:{}", hex)).is_err());
    assert!(Digest::new(&format!("sha256:{}\n", hex)).is_err());
    assert!(Digest::new(&format!("sha256:{}0", hex)).is_err());
    assert!(Digest::new(&format!("sha256:{}", &hex[1..])).is_err());
    assert!(Digest::new("").is_err());
}

#[test]
fn digest_error_names_the_text() {
    let e = Digest::new("sha256:short").unwrap_err();
    assert_eq!(e.code(), "IMAGE_DIGEST_INVALID");
    assert_eq!(e.message(), "Invalid digest format: sha256:short");
    assert_eq!(e.suggestion(), Some("Digest must be sha256:<hex>"));
}

#[test]
fn digest_clone_is_equal() {
    let d = Digest::new("sha256:e3b0c44298fc1c149afbf4c8996fb92427ae41e4649b934ca495991b7852b855").unwrap();
    assert_eq!(d.clone(), d);
}

#[test]
fn image_ref_has_no_registry() {
    let r = ImageRef::new("library/alpine", "latest");
    assert_eq!(r.registry, None);
    assert_eq!(r.repository, "library/alpine");
    assert_eq!(r.tag, "latest");
}
