use blew::l2cap::types::{
    IoErrorKind, L2capCloseReason, L2capConfig, L2capEncryption, Psm, DEFAULT_L2CAP_BUFFER_SIZE,
    DEFAULT_L2CAP_READ_CHUNK_SIZE, MIN_L2CAP_BUFFER_SIZE, MIN_L2CAP_READ_CHUNK_SIZE,
};
use std::time::Duration;

#[test]
fn defaults_are_returned_unchanged() {
    let config = L2capConfig::default();
    assert_eq!(config.effective_buffer_size(), DEFAULT_L2CAP_BUFFER_SIZE);
    assert_eq!(
        config.effective_read_chunk_size(),
        DEFAULT_L2CAP_READ_CHUNK_SIZE
    );
}

#[test]
fn encryption_defaults_to_insecure() {
    assert_eq!(L2capConfig::default().encryption, L2capEncryption::Insecure);
}

#[test]
fn zero_sizes_are_raised_to_the_floor() {
    let config = L2capConfig {
        buffer_size: 0,
        read_chunk_size: 0,
        ..Default::default()
    };
    assert_eq!(config.effective_buffer_size(), MIN_L2CAP_BUFFER_SIZE);
    assert_eq!(
        config.effective_read_chunk_size(),
        MIN_L2CAP_READ_CHUNK_SIZE
    );
}

#[test]
fn buffer_is_never_smaller_than_one_read() {
    let config = L2capConfig {
        buffer_size: 2048,
        read_chunk_size: 16 * 1024,
        ..Default::default()
    };
    assert_eq!(config.effective_buffer_size(), 16 * 1024);
}

#[test]
fn sizes_above_the_floor_are_kept() {
    let config = L2capConfig {
        buffer_size: 1025,
        read_chunk_size: 65,
        ..Default::default()
    };
    assert_eq!(config.effective_buffer_size(), 1025);
    assert_eq!(config.effective_read_chunk_size(), 65);
}

#[test]
fn the_linger_defaults_to_one_second() {
    assert_eq!(
        L2capConfig::default().linger_timeout,
        Some(Duration::from_secs(1))
    );
}

#[test]
fn psm_carries_its_number() {
    assert_eq!(Psm::from(0x80).value(), 0x80);
    assert_eq!(Psm(192).text(), "192");
    assert_eq!(Psm(0).text(), "0");
    assert_eq!(Psm(u16::MAX).text(), "65535");
}

#[test]
fn encryption_levels_have_names() {
    assert_eq!(L2capEncryption::Insecure.text(), "insecure");
    assert_eq!(
        L2capEncryption::RequireEncryption.text(),
        "require-encryption"
    );
    assert_eq!(
        L2capEncryption::RequireAuthentication.text(),
        "require-authentication"
    );
    assert_eq!(L2capEncryption::default(), L2capEncryption::Insecure);
}

#[test]
fn a_clean_close_is_no_error() {
    assert!(L2capCloseReason::Closed.as_io_error().is_none());
    let lost = L2capCloseReason::LinkLost.as_io_error().unwrap();
    assert_eq!(lost.kind, IoErrorKind::ConnectionReset);
    assert_eq!(lost.message, "L2CAP link lost");
    let failed = L2capCloseReason::TransportError("boom".to_string())
        .as_io_error()
        .unwrap();
    assert_eq!(failed.kind, IoErrorKind::Other);
    assert_eq!(failed.message, "L2CAP transport error: boom");
}
