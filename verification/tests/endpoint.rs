use quic_forward_proxy::endpoint::client_settings;

#[test]
fn client_settings_are_the_fixed_ones() {
    let settings = client_settings();
    assert_eq!(settings.max_concurrent_uni_streams, 0);
    assert_eq!(settings.max_concurrent_bidi_streams, 0);
    assert_eq!(settings.max_idle_timeout_ms, 2_000);
    assert_eq!(settings.keep_alive_interval_ms, None);
    assert!(settings.enable_early_data);
    assert_eq!(settings.alpn_protocol, b"solana-tpu".to_vec());
    assert!(!settings.verify_server_certificate);
    assert_eq!(settings.bind_ip, 0);
    assert_eq!(settings.first_port, 8_000);
    assert_eq!(settings.end_port, 10_000);
}

#[test]
fn idle_timeout_is_the_one_destinations_publish() {
    let settings = client_settings();
    assert_eq!(
        u128::from(settings.max_idle_timeout_ms),
        solana_sdk::quic::QUIC_MAX_TIMEOUT.as_millis()
    );
}
