use p2p_chat::config::AppConfig;

#[test]
fn default_settings_are_empty() {
    let config = AppConfig::default();
    assert_eq!(config.relay_adress, "");
    assert_eq!(config.storage_path, None);
}
