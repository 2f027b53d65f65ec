use blew::central::types::{default_connect_timeout, CentralConfig, ScanFilter, ScanMode};
use blew::l2cap::types::L2capEncryption;
use blew::peripheral::types::{AdvertisingConfig, LocalName, PeripheralConfig};
use std::time::Duration;

#[test]
fn central_config_default_has_no_restore_identifier() {
    let c = CentralConfig::default();
    assert!(c.restore_identifier.is_none());
}

#[test]
fn central_config_default_sets_15s_connect_timeout() {
    let c = CentralConfig::default();
    assert_eq!(c.connect_timeout, Some(default_connect_timeout()));
    assert_eq!(c.connect_timeout, Some(Duration::from_secs(15)));
}

#[test]
fn central_config_connect_timeout_is_opt_outable() {
    let c = CentralConfig {
        restore_identifier: None,
        connect_timeout: None,
        ..Default::default()
    };
    assert!(c.connect_timeout.is_none());
}

#[test]
fn the_other_defaults() {
    let p = PeripheralConfig::default();
    assert!(p.restore_identifier.is_none());
    assert_eq!(p.l2cap.encryption, L2capEncryption::Insecure);
    let f = ScanFilter::default();
    assert!(f.services.is_empty());
    assert_eq!(f.mode, ScanMode::LowLatency);
    assert_eq!(ScanMode::default(), ScanMode::LowLatency);
    let a = AdvertisingConfig::default();
    assert_eq!(a.local_name, LocalName::NoName);
    assert!(a.service_uuids.is_empty());
    assert_eq!(CentralConfig::default().l2cap.buffer_size, 65536);
}

#[test]
fn both_naming_variants_put_the_name_on_air() {
    assert_eq!(LocalName::NoName.name(), None);
    assert_eq!(LocalName::Temporary("x".into()).name(), Some("x"));
    assert_eq!(LocalName::AllowPermanent("y".into()).name(), Some("y"));
    assert_eq!(LocalName::default(), LocalName::NoName);
}
