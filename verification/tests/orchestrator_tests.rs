use utxo_import::codec::encode_record;
use utxo_import::codec::RawRecord;
use utxo_import::error::ImportError;
use utxo_import::network::NetworkIdentity;
use utxo_import::network::NetworkType;
use utxo_import::orchestrator::advance;
use utxo_import::orchestrator::check_peer;
use utxo_import::orchestrator::run_import;
use utxo_import::orchestrator::Event;
use utxo_import::orchestrator::ImportReport;
use utxo_import::orchestrator::ImportRequest;
use utxo_import::orchestrator::PeerInfo;
use utxo_import::orchestrator::Stage;
use utxo_import::store::MetaRecord;
use utxo_import::store::TargetStore;
use utxo_import::utxo::Outpoint;
use utxo_import::utxo::ScriptPublicKey;
use utxo_import::utxo::UtxoEntry;

fn testnet(suffix: u32) -> NetworkIdentity {
    NetworkIdentity { network_type: NetworkType::Testnet, suffix: Some(suffix) }
}

fn entry(tx: u8, index: u32, amount: u64) -> UtxoEntry {
    UtxoEntry {
        outpoint: Outpoint { transaction_id: [tx; 32], index },
        amount,
        script_public_key: ScriptPublicKey { version: 0, script: vec![0x76, 0xa9] },
        block_daa_score: 4000,
        is_coinbase: false,
    }
}

fn three() -> Vec<UtxoEntry> {
    vec![entry(0xa, 0, 100), entry(0xb, 1, 250), entry(0xb, 2, 50)]
}

fn records(entries: &[UtxoEntry]) -> Vec<RawRecord> {
    entries.iter().map(encode_record).collect()
}

fn request() -> ImportRequest {
    ImportRequest {
        network_type: "testnet".to_string(),
        suffix: Some(11),
        peer: PeerInfo { is_synced: true, network_id: testnet(11) },
        schema: Ok(()),
        app_dir: "/var/kaspa".to_string(),
        marker: Some("2\n".to_string()),
        directory_exists: true,
        records: records(&three()),
        imported_at: 1_700_000_000,
        batch_size: 2,
    }
}

fn aborted(error: ImportError) -> ImportReport {
    ImportReport { stage: Stage::Aborted, error: Some(error), rows_loaded: 0 }
}

#[test]
fn import_of_three_entries_from_a_synced_testnet_peer() {
    let mut store = TargetStore::new(1000);
    let report = run_import(&mut store, request());
    assert_eq!(report, ImportReport { stage: Stage::Done, error: None, rows_loaded: 3 });
    assert!(report.stage.is_success());
    assert_eq!(store.row_count(), 3);
    assert_eq!(store.rows(), &three());
    assert_eq!(
        store.get_meta(),
        Some(MetaRecord {
            network_type: NetworkType::Testnet,
            suffix: Some(11),
            imported_at: 1_700_000_000
        })
    );
}

#[test]
fn import_aborts_when_the_peer_is_not_synced() {
    let mut store = TargetStore::new(1000);
    let mut unsynced = request();
    unsynced.peer.is_synced = false;
    let report = run_import(&mut store, unsynced);
    assert_eq!(report, aborted(ImportError::NotSynced));
    assert!(!report.stage.is_success());
    assert_eq!(store.row_count(), 0);
    assert_eq!(store.get_meta(), None);
    assert!(!store.is_staging());
}

#[test]
fn second_import_changes_nothing() {
    let mut store = TargetStore::new(1000);
    assert_eq!(run_import(&mut store, request()).rows_loaded, 3);
    let mut later = request();
    later.imported_at = 1_800_000_000;
    later.records.push(encode_record(&entry(0xc, 0, 1)));
    let report = run_import(&mut store, later);
    assert_eq!(report, ImportReport { stage: Stage::AlreadyImported, error: None, rows_loaded: 0 });
    assert!(report.stage.is_success());
    assert_eq!(store.row_count(), 3);
    assert_eq!(store.rows(), &three());
    assert_eq!(store.get_meta().unwrap().imported_at, 1_700_000_000);
}

#[test]
fn import_aborts_when_the_peer_is_on_another_network() {
    let mut store = TargetStore::new(1000);
    let mut other = request();
    other.peer.network_id = testnet(10);
    assert_eq!(run_import(&mut store, other), aborted(ImportError::NetworkMismatch));
    let mut other = request();
    other.peer.network_id = NetworkIdentity { network_type: NetworkType::Mainnet, suffix: None };
    assert_eq!(run_import(&mut store, other), aborted(ImportError::NetworkMismatch));
    assert_eq!(store.get_meta(), None);
}

#[test]
fn import_aborts_on_a_malformed_configuration() {
    let mut store = TargetStore::new(1000);
    let mut bad = request();
    bad.network_type = "kaspanet".to_string();
    assert_eq!(run_import(&mut store, bad), aborted(ImportError::InvalidConfiguration));
    let mut bad = request();
    bad.suffix = None;
    bad.peer.is_synced = false;
    assert_eq!(run_import(&mut store, bad), aborted(ImportError::InvalidConfiguration));
}

#[test]
fn import_aborts_when_the_schema_is_not_ready() {
    let mut store = TargetStore::new(1000);
    let mut bad = request();
    bad.schema = Err(ImportError::LoadFailure);
    assert_eq!(run_import(&mut store, bad), aborted(ImportError::LoadFailure));
    assert_eq!(store.get_meta(), None);
}

#[test]
fn import_aborts_when_the_store_is_not_found() {
    let mut store = TargetStore::new(1000);
    let mut missing = request();
    missing.marker = None;
    assert_eq!(run_import(&mut store, missing), aborted(ImportError::StoreNotFound));
    let mut missing = request();
    missing.marker = Some("two".to_string());
    assert_eq!(run_import(&mut store, missing), aborted(ImportError::StoreNotFound));
    let mut missing = request();
    missing.directory_exists = false;
    assert_eq!(run_import(&mut store, missing), aborted(ImportError::StoreNotFound));
    assert_eq!(store.row_count(), 0);
    assert_eq!(store.get_meta(), None);
}

#[test]
fn import_aborts_on_a_damaged_store_and_can_be_run_again() {
    let mut store = TargetStore::new(1000);
    let mut damaged = request();
    damaged.records[2].value[16] = 9;
    assert_eq!(run_import(&mut store, damaged), aborted(ImportError::ExtractionFailure));
    assert_eq!(store.row_count(), 0);
    assert_eq!(store.get_meta(), None);
    let report = run_import(&mut store, request());
    assert_eq!(report.stage, Stage::Done);
    assert_eq!(store.row_count(), 3);
}

#[test]
fn import_aborts_when_the_target_is_too_small() {
    let mut store = TargetStore::new(2);
    assert_eq!(run_import(&mut store, request()), aborted(ImportError::LoadFailure));
    assert_eq!(store.row_count(), 0);
    assert_eq!(store.get_meta(), None);
}

#[test]
fn import_skips_a_seeded_target_before_looking_for_the_store() {
    let mut store = TargetStore::new(1000);
    store.store_meta(testnet(11), 5).unwrap();
    let mut unreadable = request();
    unreadable.marker = None;
    unreadable.records.clear();
    let report = run_import(&mut store, unreadable);
    assert_eq!(report, ImportReport { stage: Stage::AlreadyImported, error: None, rows_loaded: 0 });
    assert_eq!(store.get_meta().unwrap().imported_at, 5);
}

#[test]
fn check_peer_resolves_then_checks_sync_then_network() {
    let synced = PeerInfo { is_synced: true, network_id: testnet(11) };
    assert_eq!(check_peer("testnet", Some(11), synced), Ok(testnet(11)));
    assert_eq!(check_peer("testnet", Some(10), synced), Err(ImportError::NetworkMismatch));
    assert_eq!(check_peer("nonet", Some(11), synced), Err(ImportError::InvalidConfiguration));
    let unsynced = PeerInfo { is_synced: false, network_id: testnet(10) };
    assert_eq!(check_peer("testnet", Some(11), unsynced), Err(ImportError::NotSynced));
}

#[test]
fn advance_walks_the_stages_in_order() {
    let mut stage = Stage::Start;
    let expected = [
        Stage::IdentityResolved,
        Stage::SchemaReady,
        Stage::StoreLocated,
        Stage::Extracted,
        Stage::Loaded,
        Stage::Done,
    ];
    for next in expected {
        assert!(!stage.is_terminal());
        stage = advance(stage, Event::Succeeded);
        assert_eq!(stage, next);
    }
    assert!(stage.is_terminal());
    assert!(stage.is_success());
}

#[test]
fn advance_never_leaves_a_terminal_stage() {
    for stage in [Stage::AlreadyImported, Stage::Done, Stage::Aborted] {
        for event in [
            Event::Succeeded,
            Event::AlreadySeeded,
            Event::Failed(ImportError::LoadFailure),
            Event::Failed(ImportError::AlreadyInitialized),
        ] {
            assert_eq!(advance(stage, event), stage);
        }
    }
    assert!(!Stage::Aborted.is_success());
}

#[test]
fn advance_aborts_on_any_failure_but_a_seeded_target() {
    let open = [
        Stage::Start,
        Stage::IdentityResolved,
        Stage::SchemaReady,
        Stage::StoreLocated,
        Stage::Extracted,
        Stage::Loaded,
    ];
    let failures = [
        ImportError::InvalidConfiguration,
        ImportError::NetworkMismatch,
        ImportError::NotSynced,
        ImportError::StoreNotFound,
        ImportError::ExtractionFailure,
        ImportError::LoadFailure,
    ];
    for stage in open {
        for failure in failures {
            assert_eq!(advance(stage, Event::Failed(failure)), Stage::Aborted);
        }
        assert_eq!(
            advance(stage, Event::Failed(ImportError::AlreadyInitialized)),
            Stage::AlreadyImported
        );
        let seeded = advance(stage, Event::AlreadySeeded);
        if stage == Stage::SchemaReady {
            assert_eq!(seeded, Stage::AlreadyImported);
        } else {
            assert_eq!(seeded, Stage::Aborted);
        }
    }
}
