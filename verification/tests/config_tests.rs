use wallet713::config::{
    apply_overrides, do_config, empty_options, load_or_create, shows, ConfigOptions,
    Wallet713Config,
};
use wallet713::hex::from_hex;
use wallet713::keys::public_key_from_private_key;

fn stored() -> Wallet713Config {
    Wallet713Config {
        wallet713_data_path: "/home/u/.wallet713".to_string(),
        grinbox_uri: "ws://relay:13420".to_string(),
        grinbox_private_key: "00".repeat(31) + "01",
        grin_node_uri: "http://node:13413".to_string(),
        grin_node_secret: Some("s3cret".to_string()),
    }
}

fn defaults() -> Wallet713Config {
    Wallet713Config {
        wallet713_data_path: "wallet713_data".to_string(),
        grinbox_uri: "ws://relay:13420".to_string(),
        grinbox_private_key: String::new(),
        grin_node_uri: "http://127.0.0.1:13413".to_string(),
        grin_node_secret: None,
    }
}

#[test]
fn reload_without_overrides_is_identity() {
    let outcome = do_config(Some(stored()), defaults(), &empty_options(), true);
    assert_eq!(outcome.config, stored());
    let again = do_config(Some(outcome.config), defaults(), &empty_options(), true);
    assert_eq!(again.config, stored());
}

#[test]
fn reload_keeps_empty_fields_empty() {
    let mut config = stored();
    config.grinbox_private_key = String::new();
    config.grinbox_uri = String::new();
    config.grin_node_secret = None;
    let outcome = do_config(Some(config.clone()), defaults(), &empty_options(), false);
    assert_eq!(outcome.config, config);
}

#[test]
fn each_option_overrides_its_field() {
    let options = ConfigOptions {
        data_path: Some("/data".to_string()),
        uri: Some("ws://other".to_string()),
        private_key: Some("abcd".to_string()),
        node_uri: Some("http://n".to_string()),
        node_secret: Some("x".to_string()),
        generate_keys: false,
    };
    let outcome = do_config(Some(stored()), defaults(), &options, false);
    assert_eq!(
        outcome.config,
        Wallet713Config {
            wallet713_data_path: "/data".to_string(),
            grinbox_uri: "ws://other".to_string(),
            grinbox_private_key: "abcd".to_string(),
            grin_node_uri: "http://n".to_string(),
            grin_node_secret: Some("x".to_string()),
        }
    );
    assert!(!outcome.show);
}

#[test]
fn one_option_leaves_the_other_fields() {
    let mut options = empty_options();
    options.uri = Some("ws://other".to_string());
    let outcome = do_config(Some(stored()), defaults(), &options, false);
    let mut expected = stored();
    expected.grinbox_uri = "ws://other".to_string();
    assert_eq!(outcome.config, expected);
}

#[test]
fn first_run_generates_a_key() {
    let outcome = do_config(None, defaults(), &empty_options(), true);
    let key = outcome.config.grinbox_private_key.clone();
    assert_eq!(key.len(), 64);
    assert_eq!(from_hex(&key).map(|b| b.len()), Some(32));
    assert!(public_key_from_private_key(&key).is_ok());
    let mut expected = defaults();
    expected.grinbox_private_key = key;
    assert_eq!(outcome.config, expected);
}

#[test]
fn first_run_generates_a_key_whatever_key_was_named() {
    let mut options = empty_options();
    options.private_key = Some("abcd".to_string());
    let outcome = do_config(None, defaults(), &options, true);
    assert_ne!(outcome.config.grinbox_private_key, "abcd");
    assert_eq!(outcome.config.grinbox_private_key.len(), 64);
}

#[test]
fn generate_keys_replaces_the_stored_key() {
    let mut options = empty_options();
    options.generate_keys = true;
    let outcome = do_config(Some(stored()), defaults(), &options, false);
    assert_ne!(outcome.config.grinbox_private_key, stored().grinbox_private_key);
    assert_eq!(outcome.config.grinbox_private_key.len(), 64);
    assert_eq!(outcome.config.grinbox_uri, stored().grinbox_uri);
    assert!(!outcome.show);
}

#[test]
fn two_generated_keys_differ() {
    let first = do_config(None, defaults(), &empty_options(), true);
    let second = do_config(None, defaults(), &empty_options(), true);
    assert_ne!(first.config.grinbox_private_key, second.config.grinbox_private_key);
}

#[test]
fn stored_key_is_kept_unless_asked_otherwise() {
    let mut options = empty_options();
    options.node_uri = Some("http://n".to_string());
    options.data_path = Some("/d".to_string());
    let outcome = do_config(Some(stored()), defaults(), &options, false);
    assert_eq!(outcome.config.grinbox_private_key, stored().grinbox_private_key);
}

#[test]
fn record_is_shown_when_nothing_was_asked() {
    assert!(shows(true, &empty_options(), false));
    assert!(!shows(true, &empty_options(), true));
    let mut options = empty_options();
    options.uri = Some("u".to_string());
    assert!(!shows(true, &options, false));
}

#[test]
fn record_is_shown_on_the_first_run_unless_silent() {
    let mut options = empty_options();
    options.uri = Some("u".to_string());
    assert!(shows(false, &options, false));
    assert!(shows(false, &empty_options(), false));
    assert!(!shows(false, &empty_options(), true));
    options.generate_keys = true;
    assert!(!shows(true, &options, false));
    let mut only_keys = empty_options();
    only_keys.generate_keys = true;
    assert!(!shows(true, &only_keys, false));
}

#[test]
fn overrides_with_a_key_at_hand() {
    let mut options = empty_options();
    options.private_key = Some("abcd".to_string());
    let kept = apply_overrides(stored(), true, &options, "ffff".to_string());
    assert_eq!(kept.grinbox_private_key, "abcd");
    options.generate_keys = true;
    let fresh = apply_overrides(stored(), true, &options, "ffff".to_string());
    assert_eq!(fresh.grinbox_private_key, "ffff");
    let first = apply_overrides(defaults(), false, &empty_options(), "ffff".to_string());
    assert_eq!(first.grinbox_private_key, "ffff");
}

#[test]
fn load_or_create_takes_the_stored_record_as_it_is() {
    assert_eq!(load_or_create(Some(stored()), defaults()), stored());
}

#[test]
fn load_or_create_makes_a_record_with_a_key() {
    let config = load_or_create(None, defaults());
    assert_eq!(config.grinbox_private_key.len(), 64);
    let mut expected = defaults();
    expected.grinbox_private_key = config.grinbox_private_key.clone();
    assert_eq!(config, expected);
}
