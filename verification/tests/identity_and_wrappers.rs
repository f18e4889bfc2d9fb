use edulinker_core::fabric::wire::{generate_device_id, generate_peer_id};
use edulinker_core::streams::types::OffsetRange;
use edulinker_core::tus::protocol::parse_metadata;
use edulinker_core::tus::store::compute_checksum;

#[test]
fn checksum_text_matches_the_protocol_exactly() {
    // SHA-256("abc"), base64-encoded, behind the protocol's algorithm token.
    assert_eq!(
        compute_checksum("abc".as_bytes()).as_str(),
        "sha256 ungWv48Bz+pBQUDeXa4iI7ADYaOWF3qctBD/YfIAFa0=",
    );
    // The empty chunk still hashes to a fixed digest.
    assert_eq!(
        compute_checksum(&[]).as_str(),
        "sha256 47DEQpj8HBSa+/TImW+5JCeuQeRkm5NMpJWZG3hSuFU=",
    );
}

#[test]
fn metadata_values_really_are_decoded() {
    // "dmFsdWU=" is base64 for "value": the parse must hand the decoded
    // text back, not the encoded form.
    let pairs = parse_metadata("k dmFsdWU=");
    assert_eq!(pairs.len(), 1);
    assert_eq!(pairs[0].1.as_str(), "value");
    // Invalid base64 and invalid UTF-8 both drop the pair.
    assert_eq!(parse_metadata("k ???").len(), 0);
    assert_eq!(parse_metadata("k /w==").len(), 0);
}

#[test]
fn identities_have_their_documented_shape() {
    let peer = generate_peer_id();
    assert_eq!(peer.chars().count(), 16);
    assert!(peer.chars().all(|c| c.is_ascii_hexdigit()));
    let device = generate_device_id();
    assert_eq!(device.chars().count(), 16);
    assert!(device.chars().all(|c| c.is_ascii_hexdigit()));
    // Hashing the same MAC twice names the same device.
    assert_eq!(device, generate_device_id());
}

#[test]
fn range_headers_parse_or_fall_through() {
    assert_eq!(
        OffsetRange::parse("offsets=0-"),
        Some(OffsetRange { start: 0, end: None }),
    );
    assert_eq!(
        OffsetRange::parse("offsets=17-40"),
        Some(OffsetRange { start: 17, end: Some(40) }),
    );
    assert_eq!(
        OffsetRange::parse("bytes=5"),
        Some(OffsetRange { start: 5, end: None }),
    );
    assert_eq!(OffsetRange::parse("offsets=a-b"), None);
    assert_eq!(OffsetRange::parse("no-equals"), None);
    assert_eq!(OffsetRange::parse("x=1-2-3"), None);
}
