use core::cmp::Ordering;
use std::hash::{BuildHasher, Hasher};

use package_family_name::{PublisherId, PublisherIdError};

#[test]
fn from_identity_publisher() {
    let publisher_id = PublisherId::new("Publisher Software");
    assert_eq!(publisher_id.as_str(), "zj75k085cmj1a");
}

#[test]
fn from_different_identity_publishers() {
    assert_ne!(
        PublisherId::new("Publisher Software"),
        PublisherId::new("Another Publisher")
    );
}

#[test]
fn from_str() {
    assert!("zj75k085cmj1a".parse::<PublisherId>().is_ok());
}

#[test]
fn too_short() {
    assert_eq!(
        "1".repeat(3).parse::<PublisherId>().err(),
        Some(PublisherIdError::InvalidLength)
    );
}

#[test]
fn too_long() {
    assert_eq!(
        "1".repeat(20).parse::<PublisherId>().err(),
        Some(PublisherIdError::InvalidLength)
    );
}

#[test]
fn invalid_characters() {
    assert_eq!(
        "zI75KO85cmL1U".parse::<PublisherId>().err(),
        Some(PublisherIdError::InvalidCharacters)
    );

    assert_eq!(
        r#"z?75%O/5\mL"U"#.parse::<PublisherId>().err(),
        Some(PublisherIdError::InvalidCharacters)
    );
}

#[test]
fn default() {
    assert_eq!(
        PublisherId::default(),
        "0000000000000".parse::<PublisherId>().unwrap()
    );
}

#[test]
fn publisher_id_equality() {
    let lower_id = "zj75k085cmj1a".parse::<PublisherId>().unwrap();
    let upper_id = "ZJ75K085CMJ1A".parse::<PublisherId>().unwrap();

    assert_eq!(lower_id, lower_id);
    assert_eq!(lower_id, upper_id);
    assert_ne!(lower_id, "yjp7t9tn9g0z0".parse::<PublisherId>().unwrap());
}

#[test]
fn publisher_id_comparison() {
    let lower_id = "zj75k085cmj1a".parse::<PublisherId>().unwrap();
    let upper_id = "ZJ75K085CMJ1A".parse::<PublisherId>().unwrap();

    assert_eq!(lower_id.cmp(&lower_id), Ordering::Equal);
    assert_eq!(lower_id.cmp(&upper_id), Ordering::Equal);

    let other_id = "yjp7t9tn9g0z0".parse::<PublisherId>().unwrap();
    assert_eq!(lower_id.cmp(&other_id), Ordering::Greater);
    assert_eq!(other_id.cmp(&lower_id), Ordering::Less);
}

#[test]
fn publisher_id_hash() {
    // If two keys are equal, their hash inputs must also be equal.
    let lower_id = "zj75k085cmj1a".parse::<PublisherId>().unwrap();
    let upper_id = "ZJ75K085CMJ1A".parse::<PublisherId>().unwrap();
    assert_eq!(lower_id, upper_id);

    let state = foldhash::fast::RandomState::default();
    let mut id_1_hasher = state.build_hasher();
    id_1_hasher.write(&lower_id.hash_bytes());

    let mut id_2_hasher = state.build_hasher();
    id_2_hasher.write(&upper_id.hash_bytes());

    assert_eq!(id_1_hasher.finish(), id_2_hasher.finish());
}

#[test]
fn derive_is_deterministic() {
    let first = PublisherId::new("Publisher Software");
    let second = PublisherId::new("Publisher Software");
    assert_eq!(first, second);
    assert_eq!(first.as_str(), second.as_str());
}

#[test]
fn derive_empty_string() {
    let publisher_id = PublisherId::new("");
    assert_eq!(publisher_id.as_str(), "werc8gmrzge18");
}

#[test]
fn derive_another_publisher() {
    assert_eq!(PublisherId::new("Another Publisher").as_str(), "yjp7t9tn9g0z0");
}

#[test]
fn length_is_always_13() {
    assert_eq!(PublisherId::LENGTH, 13);
    assert_eq!(PublisherId::new("Publisher Software").len(), 13);
    assert_eq!(PublisherId::default().len(), 13);
    assert!(!PublisherId::new("").is_empty());
}

#[test]
fn clone_keeps_the_value() {
    let original = PublisherId::new("Publisher Software");
    let copy = original.clone();
    assert_eq!(copy, original);
    assert_eq!(copy.as_str(), original.as_str());
}

#[test]
fn parse_preserves_case() {
    let upper_id = "ZJ75K085CMJ1A".parse::<PublisherId>().unwrap();
    assert_eq!(upper_id.as_str(), "ZJ75K085CMJ1A");
    assert_eq!(upper_id.to_string(), "ZJ75K085CMJ1A");
}

#[test]
fn letters_of_wrong_length_rejected_as_length() {
    // The characters are fine, so the length error wins.
    assert_eq!(
        "abc".parse::<PublisherId>().err(),
        Some(PublisherIdError::InvalidLength)
    );
}

#[test]
fn encoder_edge_values() {
    assert_eq!(package_family_name::base32::encode13_string(0), "0000000000000");
    assert_eq!(
        package_family_name::base32::encode13_string(u64::MAX),
        "zzzzzzzzzzzzy"
    );
}

#[test]
fn non_ascii_candidate_rejected() {
    assert_eq!(
        "zürich0000000".parse::<PublisherId>().err(),
        Some(PublisherIdError::InvalidCharacters)
    );
}
