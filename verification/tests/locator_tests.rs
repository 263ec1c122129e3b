use utxo_import::error::ImportError;
use utxo_import::locator::locate;
use utxo_import::locator::parse_marker;
use utxo_import::locator::pointer_path;
use utxo_import::locator::ConsensusStoreLocation;
use utxo_import::network::NetworkIdentity;
use utxo_import::network::NetworkType;

fn testnet(suffix: u32) -> NetworkIdentity {
    NetworkIdentity { network_type: NetworkType::Testnet, suffix: Some(suffix) }
}

fn mainnet() -> NetworkIdentity {
    NetworkIdentity { network_type: NetworkType::Mainnet, suffix: None }
}

#[test]
fn pointer_path_is_scoped_by_the_network() {
    assert_eq!(
        pointer_path("/home/node/.rusty-kaspa", testnet(11)),
        "/home/node/.rusty-kaspa/kaspa-testnet-11/datadir/meta/CURRENT"
    );
    assert_eq!(pointer_path("data", mainnet()), "data/kaspa-mainnet/datadir/meta/CURRENT");
    assert_eq!(
        pointer_path("", NetworkIdentity { network_type: NetworkType::Devnet, suffix: None }),
        "/kaspa-devnet/datadir/meta/CURRENT"
    );
    assert_eq!(
        pointer_path("d", NetworkIdentity { network_type: NetworkType::Simnet, suffix: None }),
        "d/kaspa-simnet/datadir/meta/CURRENT"
    );
    assert_eq!(
        pointer_path("d", testnet(4294967295)),
        "d/kaspa-testnet-4294967295/datadir/meta/CURRENT"
    );
}

#[test]
fn locate_resolves_the_live_generation() {
    let location = locate("/data", testnet(11), Some("3\n")).unwrap();
    assert_eq!(
        location,
        ConsensusStoreLocation {
            base_dir: "/data".to_string(),
            identity: testnet(11),
            generation: 3
        }
    );
    assert_eq!(
        location.consensus_dir(),
        "/data/kaspa-testnet-11/datadir/consensus/consensus-3"
    );
    let location = locate("/data", mainnet(), Some("120")).unwrap();
    assert_eq!(location.consensus_dir(), "/data/kaspa-mainnet/datadir/consensus/consensus-120");
}

#[test]
fn locate_fails_without_a_pointer() {
    assert_eq!(locate("/data", mainnet(), None), Err(ImportError::StoreNotFound));
}

#[test]
fn locate_fails_on_a_pointer_that_names_no_generation() {
    for marker in ["", "\n", "abc", "3\n\n", " 3", "3 ", "-1", "+3", "3\r\n", "0x10"] {
        assert_eq!(locate("/data", mainnet(), Some(marker)), Err(ImportError::StoreNotFound));
    }
}

#[test]
fn parse_marker_reads_a_counter() {
    assert_eq!(parse_marker("0"), Some(0));
    assert_eq!(parse_marker("0\n"), Some(0));
    assert_eq!(parse_marker("0042\n"), Some(42));
    assert_eq!(parse_marker("18446744073709551615\n"), Some(u64::MAX));
    assert_eq!(parse_marker("18446744073709551616\n"), None);
    assert_eq!(parse_marker("\n3"), None);
}

#[test]
fn confirm_needs_the_directory() {
    let location = locate("/data", testnet(10), Some("1")).unwrap();
    assert_eq!(location.clone().confirm(true), Ok(location.clone()));
    assert_eq!(location.confirm(false), Err(ImportError::StoreNotFound));
}
