use wallet_config::config::{
    classify_client_error, finish_client_build, infer_network, interpret_probe, parse_auth,
    resolve_node_address, resolve_probe_config, resolve_wallet, Auth, BackendError,
    BlockchainConfig, ClientError, Network, WalletConfig, DEFAULT, DEFAULT_MAINNET_NODE,
    DEFAULT_TESTNET_NODE,
};
use wallet_config::e::{ErrorKind, S5Error};

const XKEY: &str = "[db7d25b5/84'/1'/6']tpubDCCh4SuT3pSAQ1qAN86qKEzsLoBeiugoGGQeibmieRUKv8z6fCTTmEXsb9yeueBkUWjGVzJr91bCzeCNShorbBqjZV4WRGjz3CrJsCboXUe";

fn tpub_descriptor() -> String {
    format!("wpkh({}/*)", XKEY)
}

#[test]
fn derives_both_branches_offline() {
    let descriptor = tpub_descriptor();
    let config = WalletConfig::new_offline(&descriptor).unwrap();
    assert_eq!(config.deposit_desc, format!("wpkh({}/0/*)", XKEY));
    assert_eq!(config.change_desc, format!("wpkh({}/1/*)", XKEY));
    assert_eq!(config.network, Network::Testnet);
    assert!(config.client.is_none());
}

#[test]
fn descriptor_without_wildcard_derives_unchanged() {
    let config = WalletConfig::new_offline("wpkh(plainkey)").unwrap();
    assert_eq!(config.deposit_desc, "wpkh(plainkey)");
    assert_eq!(config.change_desc, "wpkh(plainkey)");
}

#[test]
fn network_inference_is_lexical() {
    assert_eq!(infer_network(&tpub_descriptor()), Network::Testnet);
    assert_eq!(infer_network("[fingerprint/h/d/path]xprv/*"), Network::Bitcoin);
    assert_eq!(infer_network("wpkh(xpubAAA/*)"), Network::Bitcoin);
    assert_eq!(infer_network("wpkh(plainkey)"), Network::Testnet);
}

#[test]
fn sentinel_resolves_to_network_default() {
    assert_eq!(resolve_node_address(DEFAULT, Network::Bitcoin), DEFAULT_MAINNET_NODE);
    assert_eq!(resolve_node_address(DEFAULT, Network::Testnet), DEFAULT_TESTNET_NODE);
    assert_eq!(
        resolve_node_address("my-default-node", Network::Testnet),
        DEFAULT_TESTNET_NODE
    );
    assert_eq!(
        resolve_node_address("ssl://example.org:50002", Network::Bitcoin),
        "ssl://example.org:50002"
    );
}

#[test]
fn auth_segment_parses_credentials() {
    let (base, segment) = split_auth_ok("http://172.18.0.2:18332?auth=alice:secret");
    assert_eq!(base, "http://172.18.0.2:18332");
    assert_eq!(segment, "alice:secret");
    match parse_auth(&segment).unwrap() {
        Auth::UserPass { username, password } => {
            assert_eq!(username, "alice");
            assert_eq!(password, "secret");
        }
        other => panic!("expected credentials, got {:?}", other),
    }
}

fn split_auth_ok(address: &str) -> (String, String) {
    wallet_config::config::split_auth(address).unwrap()
}

#[test]
fn empty_auth_segment_means_no_credentials() {
    let (base, segment) = split_auth_ok("http://node.local:8332?auth=");
    assert_eq!(base, "http://node.local:8332");
    assert_eq!(segment, "");
    assert!(matches!(parse_auth(&segment).unwrap(), Auth::NoCredentials));
}

#[test]
fn auth_password_splits_at_first_colon() {
    match parse_auth("alice:se:cret").unwrap() {
        Auth::UserPass { username, password } => {
            assert_eq!(username, "alice");
            assert_eq!(password, "se:cret");
        }
        other => panic!("expected credentials, got {:?}", other),
    }
}

#[test]
fn malformed_auth_is_an_internal_error() {
    let err = parse_auth("nocolon").err().unwrap();
    assert_eq!(err.kind, ErrorKind::Internal);
    assert_eq!(err.message, "Invalid Node Address.");

    let err = wallet_config::config::split_auth("http://node.local:8332").err().unwrap();
    assert_eq!(err.kind, ErrorKind::Internal);
    assert_eq!(err.message, "Invalid Node Address.");

    let err = resolve_wallet(&tpub_descriptor(), "http://node.local:8332", None)
        .err()
        .unwrap();
    assert_eq!(err.kind, ErrorKind::Internal);
    assert_eq!(err.message, "Invalid Node Address.");
}

#[test]
fn unrecognized_address_shape_fails() {
    let err = resolve_wallet(&tpub_descriptor(), "carrier-pigeon:9000", None)
        .err()
        .unwrap();
    assert_eq!(err.kind, ErrorKind::Internal);
    assert_eq!(err.message, "Invalid Node Address.");
}

#[test]
fn relay_io_failure_is_network_all_else_internal() {
    let relay = match resolve_wallet(&tpub_descriptor(), DEFAULT, None)
        .unwrap()
        .client_config
    {
        cfg @ BlockchainConfig::Electrum(_) => cfg,
        other => panic!("expected a relay configuration, got {:?}", other),
    };
    let e = classify_client_error(
        &relay,
        ClientError::Electrum(BackendError::Io("connection refused".to_string())),
    );
    assert_eq!(e.kind, ErrorKind::Network);
    assert_eq!(e.message, "connection refused");

    let e = classify_client_error(
        &relay,
        ClientError::Electrum(BackendError::Other("bad protocol".to_string())),
    );
    assert_eq!(e.kind, ErrorKind::Internal);
    assert_eq!(e.message, "bad protocol");

    let e = classify_client_error(&relay, ClientError::Other("no feature".to_string()));
    assert_eq!(e.kind, ErrorKind::Internal);

    let rpc = BlockchainConfig::Rpc(wallet_config::config::RpcConfig {
        url: "http://node.local:8332".to_string(),
        auth: Auth::NoCredentials,
        network: Network::Testnet,
        wallet_name: "w".to_string(),
    });
    let e = classify_client_error(
        &rpc,
        ClientError::Rpc(BackendError::Io("broken pipe".to_string())),
    );
    assert_eq!(e.kind, ErrorKind::Network);
    let e = classify_client_error(
        &rpc,
        ClientError::Electrum(BackendError::Io("broken pipe".to_string())),
    );
    assert_eq!(e.kind, ErrorKind::Internal);

    let failed = finish_client_build(
        &rpc,
        Err(ClientError::Rpc(BackendError::Io("broken pipe".to_string()))),
    );
    let e = failed.err().unwrap();
    assert_eq!(e.kind, ErrorKind::Network);
    assert_eq!(e.message, "broken pipe");
}

#[test]
fn default_address_selects_testnet_relay() {
    let pending = resolve_wallet(&tpub_descriptor(), DEFAULT, None).unwrap();
    assert_eq!(pending.network, Network::Testnet);
    assert!(pending.deposit_desc.ends_with("/0/*)"));
    assert!(pending.change_desc.ends_with("/1/*)"));
    match pending.client_config {
        BlockchainConfig::Electrum(c) => {
            assert_eq!(c.url, DEFAULT_TESTNET_NODE);
            assert_eq!(c.socks5, None);
            assert_eq!(c.retry, 1);
            assert_eq!(c.timeout, Some(5));
            assert_eq!(c.stop_gap, 1000);
            assert!(c.validate_domain);
        }
        other => panic!("expected a relay configuration, got {:?}", other),
    }
}

#[test]
fn proxy_unsets_the_relay_timeout() {
    let pending = resolve_wallet(
        &tpub_descriptor(),
        DEFAULT,
        Some("socks5://127.0.0.1:9050".to_string()),
    )
    .unwrap();
    match pending.client_config {
        BlockchainConfig::Electrum(c) => {
            assert_eq!(c.socks5, Some("socks5://127.0.0.1:9050".to_string()));
            assert_eq!(c.timeout, None);
            assert_eq!(c.retry, 1);
        }
        other => panic!("expected a relay configuration, got {:?}", other),
    }
}

#[test]
fn xprv_descriptor_selects_mainnet_default() {
    let descriptor = "wpkh([db7d25b5/84'/1'/6']xprvAAA/*)";
    let pending = resolve_wallet(descriptor, DEFAULT, None).unwrap();
    assert_eq!(pending.network, Network::Bitcoin);
    match pending.client_config {
        BlockchainConfig::Electrum(c) => assert_eq!(c.url, DEFAULT_MAINNET_NODE),
        other => panic!("expected a relay configuration, got {:?}", other),
    }
}

#[test]
fn offline_matches_online_resolution() {
    let descriptor = tpub_descriptor();
    let offline = WalletConfig::new_offline(&descriptor).unwrap();
    let online = resolve_wallet(&descriptor, DEFAULT, None).unwrap();
    assert_eq!(offline.deposit_desc, online.deposit_desc);
    assert_eq!(offline.change_desc, online.change_desc);
    assert_eq!(offline.network, online.network);
    assert!(offline.client.is_none());
}

#[test]
fn rpc_address_derives_a_wallet_name() {
    let descriptor = tpub_descriptor();
    let address = "http://172.18.0.2:18332?auth=alice:secret";
    let pending = resolve_wallet(&descriptor, address, None).unwrap();
    let name = match pending.client_config {
        BlockchainConfig::Rpc(c) => {
            assert_eq!(c.url, "http://172.18.0.2:18332");
            assert_eq!(c.network, Network::Testnet);
            assert!(matches!(c.auth, Auth::UserPass { .. }));
            c.wallet_name
        }
        other => panic!("expected an rpc configuration, got {:?}", other),
    };
    assert!(!name.is_empty());
    assert_ne!(name, descriptor);

    let again = resolve_wallet(&descriptor, address, None).unwrap();
    match again.client_config {
        BlockchainConfig::Rpc(c) => assert_eq!(c.wallet_name, name),
        other => panic!("expected an rpc configuration, got {:?}", other),
    }
}

#[test]
fn malformed_descriptor_fails_wallet_naming() {
    let err = resolve_wallet(
        "[fingerprint/h/d/path]xprv/*",
        "http://node.local:8332?auth=",
        None,
    )
    .err()
    .unwrap();
    assert_eq!(err.kind, ErrorKind::Internal);
    assert!(!err.message.is_empty());
}

#[test]
fn probe_config_uses_placeholder_wallet() {
    match resolve_probe_config(Network::Testnet, DEFAULT_TESTNET_NODE).unwrap() {
        BlockchainConfig::Electrum(c) => {
            assert_eq!(c.url, DEFAULT_TESTNET_NODE);
            assert_eq!(c.socks5, None);
            assert_eq!(c.timeout, Some(5));
        }
        other => panic!("expected a relay configuration, got {:?}", other),
    }
    match resolve_probe_config(Network::Testnet, "http://node.local:8332?auth=").unwrap() {
        BlockchainConfig::Rpc(c) => {
            assert_eq!(c.wallet_name, "ping");
            assert_eq!(c.url, "http://node.local:8332");
            assert!(matches!(c.auth, Auth::NoCredentials));
            assert_eq!(c.network, Network::Testnet);
        }
        other => panic!("expected an rpc configuration, got {:?}", other),
    }
    let err = resolve_probe_config(Network::Testnet, "carrier-pigeon:9000")
        .err()
        .unwrap();
    assert_eq!(err.kind, ErrorKind::Internal);
    assert_eq!(err.message, "Invalid Node Address.");
}

#[test]
fn probe_outcome_classifies_liveness() {
    let relay = resolve_probe_config(Network::Testnet, DEFAULT_TESTNET_NODE).unwrap();
    assert_eq!(interpret_probe(&relay, None).unwrap(), true);

    let err = interpret_probe(
        &relay,
        Some(ClientError::Electrum(BackendError::Io("timed out".to_string()))),
    )
    .err()
    .unwrap();
    assert_eq!(err.kind, ErrorKind::Network);
    assert_eq!(err.message, "timed out");

    let err = interpret_probe(
        &relay,
        Some(ClientError::Electrum(BackendError::Other("bad version".to_string()))),
    )
    .err()
    .unwrap();
    assert_eq!(err.kind, ErrorKind::Internal);
    assert_eq!(err.message, "bad version");
}

#[test]
fn failed_construction_aborts_the_resolution() {
    let pending = resolve_wallet(&tpub_descriptor(), DEFAULT, None).unwrap();
    let result = WalletConfig::assemble(
        pending.clone(),
        Err(S5Error::new(ErrorKind::Network, "connection refused")),
    );
    let err = result.err().unwrap();
    assert_eq!(err.kind, ErrorKind::Network);
    assert_eq!(err.message, "connection refused");

    let result = WalletConfig::assemble(
        pending,
        Err(S5Error::new(ErrorKind::Internal, "bad config")),
    );
    let err = result.err().unwrap();
    assert_eq!(err.kind, ErrorKind::Internal);
    assert_eq!(err.message, "bad config");
}

#[test]
fn repeated_auth_delimiter_reads_the_middle_segment() {
    let (base, segment) = split_auth_ok("http://x?auth=u:p?auth=z");
    assert_eq!(base, "http://x");
    assert_eq!(segment, "u:p");
}
