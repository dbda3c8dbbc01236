use quic_dispatch::config::{ConfigError, TransportConfig};

#[test]
fn the_standard_configuration_holds_the_advertised_parameters() {
    let config = TransportConfig::standard();
    assert_eq!(config.version, 1);
    assert_eq!(config.application_protos, vec![b"h3".to_vec()]);
    assert_eq!(config.max_idle_timeout, 5000);
    assert_eq!(config.max_recv_udp_payload_size, 1350);
    assert_eq!(config.max_send_udp_payload_size, 1350);
    assert_eq!(config.initial_max_data, 10_000_000);
    assert_eq!(config.initial_max_stream_data_bidi_local, 1_000_000);
    assert_eq!(config.initial_max_stream_data_bidi_remote, 1_000_000);
    assert_eq!(config.initial_max_stream_data_uni, 1_000_000);
    assert_eq!(config.initial_max_streams_bidi, 100);
    assert_eq!(config.initial_max_streams_uni, 100);
    assert!(config.disable_active_migration);
    assert!(config.early_data);
}

#[test]
fn the_standard_configuration_is_valid() {
    assert_eq!(TransportConfig::standard().validate(), Ok(()));
}

#[test]
fn another_version_is_refused() {
    let mut config = TransportConfig::standard();
    config.version = 2;
    assert_eq!(config.validate(), Err(ConfigError::UnsupportedVersion(2)));
    config.version = 0;
    assert_eq!(config.validate(), Err(ConfigError::UnsupportedVersion(0)));
}
