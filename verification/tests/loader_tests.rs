use utxo_import::codec::encode_record;
use utxo_import::codec::RawRecord;
use utxo_import::error::ImportError;
use utxo_import::extractor::extract;
use utxo_import::extractor::ExtractorState;
use utxo_import::loader::load;
use utxo_import::network::NetworkIdentity;
use utxo_import::network::NetworkType;
use utxo_import::store::MetaRecord;
use utxo_import::store::TargetStore;
use utxo_import::utxo::Outpoint;
use utxo_import::utxo::ScriptPublicKey;
use utxo_import::utxo::UtxoEntry;

fn entries(count: u32) -> Vec<UtxoEntry> {
    (0..count)
        .map(|i| UtxoEntry {
            outpoint: Outpoint { transaction_id: [(i / 4) as u8; 32], index: i % 4 },
            amount: 100 + i as u64,
            script_public_key: ScriptPublicKey { version: 0, script: vec![i as u8] },
            block_daa_score: 77,
            is_coinbase: i == 0,
        })
        .collect()
}

fn records(entries: &[UtxoEntry]) -> Vec<RawRecord> {
    entries.iter().map(encode_record).collect()
}

fn simnet() -> NetworkIdentity {
    NetworkIdentity { network_type: NetworkType::Simnet, suffix: None }
}

#[test]
fn load_publishes_every_entry_and_the_stamp() {
    let all = entries(7);
    let mut store = TargetStore::new(100);
    let mut extractor = extract(records(&all));
    assert_eq!(load(&mut store, &mut extractor, simnet(), 1234, 3), Ok(7));
    assert_eq!(store.rows(), &all);
    assert_eq!(store.row_count(), 7);
    assert_eq!(
        store.get_meta(),
        Some(MetaRecord { network_type: NetworkType::Simnet, suffix: None, imported_at: 1234 })
    );
    assert_eq!(extractor.state(), ExtractorState::Exhausted);
    assert!(!store.is_staging());
}

#[test]
fn load_does_not_depend_on_the_batch_size() {
    let all = entries(10);
    for batch_size in [1, 2, 3, 5, 9, 10, 11, usize::MAX] {
        let mut store = TargetStore::new(10);
        let mut extractor = extract(records(&all));
        assert_eq!(load(&mut store, &mut extractor, simnet(), 1, batch_size), Ok(10));
        assert_eq!(store.rows(), &all);
    }
}

#[test]
fn load_of_an_empty_set_stamps_the_target() {
    let mut store = TargetStore::new(0);
    let mut extractor = extract(vec![]);
    assert_eq!(load(&mut store, &mut extractor, simnet(), 9, 4), Ok(0));
    assert_eq!(store.row_count(), 0);
    assert!(store.get_meta().is_some());
}

#[test]
fn load_interrupted_by_a_damaged_record_leaves_the_target_untouched() {
    let mut raw = records(&entries(7));
    raw[5].value.truncate(3);
    let mut store = TargetStore::new(100);
    let mut extractor = extract(raw);
    assert_eq!(
        load(&mut store, &mut extractor, simnet(), 1, 2),
        Err(ImportError::ExtractionFailure)
    );
    assert_eq!(store.row_count(), 0);
    assert_eq!(store.get_meta(), None);
    assert!(!store.is_staging());
}

#[test]
fn load_interrupted_by_a_full_target_leaves_it_untouched() {
    let mut store = TargetStore::new(5);
    let mut extractor = extract(records(&entries(7)));
    assert_eq!(load(&mut store, &mut extractor, simnet(), 1, 2), Err(ImportError::LoadFailure));
    assert_eq!(store.row_count(), 0);
    assert_eq!(store.get_meta(), None);
    assert!(!store.is_staging());
    assert_eq!(extractor.position(), 6);
}

#[test]
fn load_reports_the_failure_it_meets_first() {
    let mut raw = records(&entries(8));
    raw[7].key.push(1);
    let mut store = TargetStore::new(5);
    let mut extractor = extract(raw.clone());
    assert_eq!(load(&mut store, &mut extractor, simnet(), 1, 2), Err(ImportError::LoadFailure));
    let mut store = TargetStore::new(5);
    let mut extractor = extract(raw);
    assert_eq!(
        load(&mut store, &mut extractor, simnet(), 1, 8),
        Err(ImportError::ExtractionFailure)
    );
}

#[test]
fn load_with_batch_size_zero_fails() {
    let mut store = TargetStore::new(5);
    let mut extractor = extract(records(&entries(2)));
    assert_eq!(load(&mut store, &mut extractor, simnet(), 1, 0), Err(ImportError::LoadFailure));
    assert_eq!(extractor.position(), 0);
    assert_eq!(store.get_meta(), None);
}

#[test]
fn load_into_a_seeded_target_changes_nothing() {
    let first = entries(3);
    let mut store = TargetStore::new(100);
    let mut extractor = extract(records(&first));
    load(&mut store, &mut extractor, simnet(), 1, 2).unwrap();
    let mut again = extract(records(&entries(6)));
    assert_eq!(
        load(&mut store, &mut again, simnet(), 2, 2),
        Err(ImportError::AlreadyInitialized)
    );
    assert_eq!(store.rows(), &first);
    assert_eq!(store.get_meta().unwrap().imported_at, 1);
}

#[test]
fn load_while_another_import_is_in_progress_fails() {
    let mut store = TargetStore::new(100);
    store.begin().unwrap();
    store.insert_batch(entries(1)).unwrap();
    let mut extractor = extract(records(&entries(3)));
    assert_eq!(load(&mut store, &mut extractor, simnet(), 1, 2), Err(ImportError::LoadFailure));
    assert!(store.is_staging());
    assert_eq!(store.publish(simnet(), 5), Ok(1));
}

#[test]
fn load_takes_up_where_the_extractor_stands() {
    let all = entries(6);
    let mut extractor = extract(records(&all));
    extractor.next_batch(2).unwrap();
    let mut store = TargetStore::new(100);
    assert_eq!(load(&mut store, &mut extractor, simnet(), 1, 3), Ok(4));
    assert_eq!(store.rows(), &all[2..].to_vec());
}

#[test]
fn load_from_a_failed_extractor_fails() {
    let mut raw = records(&entries(2));
    raw[0].value.clear();
    let mut extractor = extract(raw);
    assert!(extractor.next_batch(1).is_err());
    let mut store = TargetStore::new(100);
    assert_eq!(
        load(&mut store, &mut extractor, simnet(), 1, 3),
        Err(ImportError::ExtractionFailure)
    );
    assert!(!store.is_staging());
}
