use monas_state_node::config::{parse_u64, StateNodeConfig};

#[test]
fn test_state_node_config_default() {
    let config = StateNodeConfig::default();

    assert_eq!(config.data_dir, "data");
    assert_eq!(config.http_addr, "127.0.0.1:8080");
    assert!(config.node_id.is_none());
    assert_eq!(config.sync_interval_secs, 30);
    assert_eq!(config.outbox_retry_interval_secs, 10);
    assert_eq!(config.min_replication_factor, 3);
    assert_eq!(config.capacity_threshold_bytes, 1_073_741_824);
}

#[test]
fn overrides_apply_only_when_they_read_as_numbers() {
    let config = StateNodeConfig::default().with_overrides(Some("5"), Some("not a number"));
    assert_eq!(config.min_replication_factor, 5);
    assert_eq!(config.capacity_threshold_bytes, 1_073_741_824);
    let config = StateNodeConfig::default().with_overrides(None, Some("+2048"));
    assert_eq!(config.min_replication_factor, 3);
    assert_eq!(config.capacity_threshold_bytes, 2048);
}

#[test]
fn decimal_parsing_matches_str_parse() {
    for s in ["0", "42", "+7", "", "+", "-1", " 1", "1a", "18446744073709551615", "18446744073709551616", "007"] {
        assert_eq!(parse_u64(s), s.parse::<u64>().ok(), "{s:?}");
    }
}
