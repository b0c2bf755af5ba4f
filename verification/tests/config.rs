use chat_core::config::Config;

#[test]
fn the_standard_configuration_is_valid() {
    let config = Config::standard();
    assert!(config.is_valid());
    assert_eq!(config.owner_id, 1);
    assert_eq!(config.limit_connections_per_ip, 128);
    assert_eq!(config.limit_requests_cheap_per_10_seconds, 7);
    assert_eq!(config.limit_requests_expensive_per_5_minutes, 2);
    assert_eq!(config.limit_message_max, 1024);
}

#[test]
fn limits_beyond_the_hard_bounds_are_invalid() {
    let mut config = Config::standard();
    config.limit_user_name_max = 129;
    assert!(!config.is_valid());
    let mut config = Config::standard();
    config.limit_user_name_max = 128;
    assert!(config.is_valid());
    let mut config = Config::standard();
    config.limit_channel_name_min = 0;
    assert!(!config.is_valid());
    let mut config = Config::standard();
    config.limit_group_name_min = 33;
    assert!(!config.is_valid());
    let mut config = Config::standard();
    config.limit_group_amount_max = 2049;
    assert!(!config.is_valid());
    let mut config = Config::standard();
    config.limit_message_max = 16385;
    assert!(!config.is_valid());
}
