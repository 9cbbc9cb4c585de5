use watchtower_plugin::config::{clone_param_string, Config, ConfigError, ConfigParam, Opt};

fn default_opt() -> Opt {
    Opt {
        api_bind: None,
        api_port: None,
        tor_support: false,
        tor_control_port: None,
        onion_hidden_service_port: None,
        rpc_bind: None,
        rpc_port: None,
        btc_network: None,
        btc_rpc_user: None,
        btc_rpc_password: None,
        btc_rpc_connect: None,
        btc_rpc_port: None,
        data_dir: String::from("~/.teos"),
        debug: false,
        deps_debug: false,
        overwrite_key: false,
        force_update: false,
    }
}

#[test]
fn test_config_patch_with_options() {
    // Tests that a given Config is overwritten with Opts if the options are present
    let mut config = Config::default();
    let config_clone = config.clone();
    let mut opt = default_opt();

    let expected_value = String::from("test");
    opt.api_bind = Some(expected_value.clone());
    config.patch_with_options(opt);

    // Check the field has been updated
    assert_eq!(config.api_bind.inner, expected_value);

    // Check the rest of fields are equal. The easiest is to set the field back and compare with a clone
    config.api_bind = clone_param_string(&config_clone.api_bind);
    assert_eq!(config, config_clone);
}

#[test]
fn test_config_default_not_verify() {
    // Tests that the default configuration does not pass verification checks. This is on purpose so some fields are
    // required to be updated by the user.
    let mut config = Config::default();
    assert!(
        matches!(config.verify(), Err(ConfigError(e)) if e.contains("btc_rpc_user must be set"))
    );
}

#[test]
fn test_config_default_verify_overwrite_required() {
    // Tests that setting some btc_rpc_user and btc_rpc_password results in a Config object that verifies
    let mut config = Config::default();
    config.btc_rpc_user = ConfigParam::from_cmd("user".to_owned());
    config.btc_rpc_password = ConfigParam::from_cmd("password".to_owned());
    config.verify().unwrap();
}

#[test]
fn test_config_verify_wrong_network() {
    // Tests that setting a wrong network will make verify fail
    let mut config = Config::default();
    config.btc_rpc_user = ConfigParam::from_cmd("user".to_owned());
    config.btc_rpc_password = ConfigParam::from_cmd("password".to_owned());
    config.btc_network = ConfigParam::from_cmd("wrong_network".to_owned());
    assert!(
        matches!(config.verify(), Err(ConfigError(e)) if e.contains("btc_network not recognized"))
    );
}

#[test]
fn test_config_verify_tor_set() {
    let mut config = Config::default();
    config.btc_rpc_user = ConfigParam::from_cmd("user".to_owned());
    config.btc_rpc_password = ConfigParam::from_cmd("password".to_owned());
    config.tor_support = ConfigParam::from_cmd(true);
    config.verify().unwrap()
}

#[test]
fn test_config_is_default_and_patch_sources() {
    let mut config = Config::default();
    assert!(config.is_default());

    let mut opt = default_opt();
    opt.btc_rpc_port = Some(18443);
    opt.debug = true;
    config.patch_with_options(opt);
    assert!(!config.is_default());
    assert!(!config.btc_rpc_port.is_default());
    assert_eq!(config.btc_rpc_port.inner, 18443);
    assert!(config.debug.inner);
}

#[test]
fn test_config_verify_normalizes_network_and_port() {
    // mainnet becomes main and the default port follows the network
    let mut config = Config::default();
    config.btc_rpc_user = ConfigParam::from_cmd("user".to_owned());
    config.btc_rpc_password = ConfigParam::from_cmd("password".to_owned());
    config.verify().unwrap();
    assert_eq!(config.btc_network.inner, "main");
    assert_eq!(config.btc_rpc_port.inner, 8332);

    let mut config = Config::default();
    config.btc_rpc_user = ConfigParam::from_cmd("user".to_owned());
    config.btc_rpc_password = ConfigParam::from_cmd("password".to_owned());
    config.btc_network = ConfigParam::from_cmd("testnet".to_owned());
    config.verify().unwrap();
    assert_eq!(config.btc_network.inner, "test");
    assert_eq!(config.btc_rpc_port.inner, 18332);

    // an explicitly set port is kept
    let mut config = Config::default();
    config.btc_rpc_user = ConfigParam::from_cmd("user".to_owned());
    config.btc_rpc_password = ConfigParam::from_cmd("password".to_owned());
    config.btc_rpc_port = ConfigParam::from_cmd(1234);
    config.verify().unwrap();
    assert_eq!(config.btc_rpc_port.inner, 1234);
}
