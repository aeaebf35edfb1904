use jcowork::gateway::{mask_secret, DeliveryPlatform, DeliveryRouter};

#[test]
fn test_mask_secret_short() {
    assert_eq!(mask_secret(""), "****");
    assert_eq!(mask_secret("abcd"), "****");
    assert_eq!(mask_secret("ab"), "****");
}

#[test]
fn test_mask_secret_long() {
    assert_eq!(mask_secret("abcdefgh"), "****efgh");
    assert_eq!(mask_secret("sk-1234567890"), "*********7890");
}

#[test]
fn test_mask_secret_boundary_five_chars() {
    assert_eq!(mask_secret("abcde"), "*bcde");
}

#[test]
fn delivery_always_succeeds() {
    let router = DeliveryRouter::new();
    assert!(router.deliver(&DeliveryPlatform::Api, "u1", "hi").is_ok());
    assert!(router.deliver(&DeliveryPlatform::Slack, "u1", "hi").is_ok());
}

#[test]
fn test_mask_secret_counts_characters() {
    assert_eq!(mask_secret("密码密码"), "****");
    assert_eq!(mask_secret("abcde密"), "**cde密");
    assert_eq!(mask_secret("密码密码密"), "*码密码密");
}
