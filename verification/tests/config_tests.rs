use utxo_import::error::ImportError;
use utxo_import::network::NetworkIdentity;
use utxo_import::network::NetworkType;
use utxo_import::utils::config::Config;
use utxo_import::utils::config::Env;
use utxo_import::utils::config::EnvVars;
use utxo_import::utils::email::is_mailbox;
use utxo_import::utils::email::prepare_email;
use utxo_import::utils::email::Email;

fn vars() -> EnvVars {
    EnvVars {
        env: Some("uat".to_string()),
        network: Some("testnet".to_string()),
        netsuffix: Some("11".to_string()),
        app_dir: Some("/srv/kaspa".to_string()),
        home_dir: Some("/home/op".to_string()),
        rpc_url: Some("ws://localhost:17210".to_string()),
        db_uri: Some("postgres://u:p@db:5432/utxo".to_string()),
        smtp_host: Some("smtp.example.org".to_string()),
        smtp_port: Some("587".to_string()),
        smtp_from: Some("importer@example.org".to_string()),
        smtp_to: Some("Ops <ops@example.org>".to_string()),
    }
}

fn config() -> Config {
    Config {
        env: Env::Uat,
        network_id: NetworkIdentity { network_type: NetworkType::Testnet, suffix: Some(11) },
        app_dir: "/srv/kaspa".to_string(),
        rpc_url: Some("ws://localhost:17210".to_string()),
        db_uri: "postgres://u:p@db:5432/utxo".to_string(),
        smtp_host: "smtp.example.org".to_string(),
        smtp_port: 587,
        smtp_from: "importer@example.org".to_string(),
        smtp_to: "Ops <ops@example.org>".to_string(),
    }
}

#[test]
fn env_names_are_read_exactly() {
    assert_eq!(Env::from_name("dev"), Some(Env::Dev));
    assert_eq!(Env::from_name("uat"), Some(Env::Uat));
    assert_eq!(Env::from_name("prod"), Some(Env::Prod));
    assert_eq!(Env::from_name("Dev"), None);
    assert_eq!(Env::from_name(""), None);
    assert_eq!(Env::from_name("production"), None);
}

#[test]
fn env_name_round_trips() {
    for env in [Env::Dev, Env::Uat, Env::Prod] {
        assert_eq!(Env::from_name(&env.name()), Some(env));
    }
    assert_eq!(Env::Prod.name(), "prod");
}

#[test]
fn from_env_reads_every_variable() {
    assert_eq!(Config::from_env(vars()), Ok(config()));
}

#[test]
fn from_env_falls_back_to_the_home_directory() {
    let mut unset = vars();
    unset.app_dir = None;
    assert_eq!(Config::from_env(unset).unwrap().app_dir, "/home/op/.rusty-kaspa");
    let mut empty = vars();
    empty.app_dir = Some(String::new());
    assert_eq!(Config::from_env(empty).unwrap().app_dir, "/home/op/.rusty-kaspa");
    let mut homeless = vars();
    homeless.app_dir = None;
    homeless.home_dir = None;
    assert_eq!(Config::from_env(homeless), Err(ImportError::InvalidConfiguration));
    let mut set = vars();
    set.home_dir = None;
    assert_eq!(Config::from_env(set), Ok(config()));
}

#[test]
fn from_env_takes_a_suffix_that_is_no_number_as_none() {
    let mut mainnet = vars();
    mainnet.network = Some("mainnet".to_string());
    mainnet.netsuffix = Some("eleven".to_string());
    assert_eq!(
        Config::from_env(mainnet).unwrap().network_id,
        NetworkIdentity { network_type: NetworkType::Mainnet, suffix: None }
    );
    let mut empty = vars();
    empty.network = Some("devnet".to_string());
    empty.netsuffix = Some(String::new());
    assert_eq!(Config::from_env(empty).unwrap().network_id.suffix, None);
    let mut testnet = vars();
    testnet.netsuffix = Some("4294967296".to_string());
    assert_eq!(Config::from_env(testnet), Err(ImportError::InvalidConfiguration));
    let mut plus = vars();
    plus.netsuffix = Some("+10".to_string());
    assert_eq!(Config::from_env(plus).unwrap().network_id.suffix, Some(10));
}

#[test]
fn from_env_refuses_a_network_and_suffix_that_make_no_identity() {
    let mut mainnet = vars();
    mainnet.network = Some("mainnet".to_string());
    assert_eq!(Config::from_env(mainnet), Err(ImportError::InvalidConfiguration));
    let mut testnet = vars();
    testnet.netsuffix = None;
    assert_eq!(Config::from_env(testnet), Err(ImportError::InvalidConfiguration));
    let mut unknown = vars();
    unknown.network = Some("net".to_string());
    assert_eq!(Config::from_env(unknown), Err(ImportError::InvalidConfiguration));
}

#[test]
fn from_env_needs_the_required_variables() {
    let mut missing = vars();
    missing.env = None;
    assert_eq!(Config::from_env(missing), Err(ImportError::InvalidConfiguration));
    let mut missing = vars();
    missing.env = Some("test".to_string());
    assert_eq!(Config::from_env(missing), Err(ImportError::InvalidConfiguration));
    let mut missing = vars();
    missing.network = None;
    assert_eq!(Config::from_env(missing), Err(ImportError::InvalidConfiguration));
    let mut missing = vars();
    missing.db_uri = None;
    assert_eq!(Config::from_env(missing), Err(ImportError::InvalidConfiguration));
    let mut missing = vars();
    missing.smtp_host = None;
    assert_eq!(Config::from_env(missing), Err(ImportError::InvalidConfiguration));
    let mut missing = vars();
    missing.smtp_from = None;
    assert_eq!(Config::from_env(missing), Err(ImportError::InvalidConfiguration));
    let mut missing = vars();
    missing.smtp_to = None;
    assert_eq!(Config::from_env(missing), Err(ImportError::InvalidConfiguration));
    assert_eq!(Config::from_env(EnvVars::default()), Err(ImportError::InvalidConfiguration));
    let mut optional = vars();
    optional.rpc_url = None;
    assert_eq!(Config::from_env(optional).unwrap().rpc_url, None);
}

#[test]
fn from_env_reads_the_port_as_sixteen_bits() {
    let mut port = vars();
    port.smtp_port = Some("65535".to_string());
    assert_eq!(Config::from_env(port).unwrap().smtp_port, 65535);
    let mut port = vars();
    port.smtp_port = Some("65536".to_string());
    assert_eq!(Config::from_env(port), Err(ImportError::InvalidConfiguration));
    let mut port = vars();
    port.smtp_port = Some("smtp".to_string());
    assert_eq!(Config::from_env(port), Err(ImportError::InvalidConfiguration));
    let mut port = vars();
    port.smtp_port = None;
    assert_eq!(Config::from_env(port), Err(ImportError::InvalidConfiguration));
}

#[test]
fn prepare_email_takes_sender_recipient_and_relay_from_the_configuration() {
    let email = prepare_email(&config(), "Import done".to_string(), "3 rows".to_string());
    assert_eq!(
        email,
        Ok(Email {
            from: "importer@example.org".to_string(),
            to: "Ops <ops@example.org>".to_string(),
            subject: "Import done".to_string(),
            body: "3 rows".to_string(),
            relay: "smtp.example.org".to_string(),
            port: 587,
        })
    );
}

#[test]
fn prepare_email_refuses_what_is_no_mailbox() {
    let mut bad = config();
    bad.smtp_from = "importer".to_string();
    assert_eq!(
        prepare_email(&bad, "s".to_string(), "b".to_string()),
        Err(ImportError::InvalidConfiguration)
    );
    let mut bad = config();
    bad.smtp_to = "ops@".to_string();
    assert_eq!(
        prepare_email(&bad, "s".to_string(), "b".to_string()),
        Err(ImportError::InvalidConfiguration)
    );
    assert!(is_mailbox("a@b.example"));
    assert!(!is_mailbox(""));
    assert!(!is_mailbox("no at sign"));
}
