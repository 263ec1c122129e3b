use utxo_import::codec::decode_record;
use utxo_import::codec::encode_record;
use utxo_import::codec::RawRecord;
use utxo_import::error::ImportError;
use utxo_import::snapshot::read_snapshot;
use utxo_import::utxo::Outpoint;
use utxo_import::utxo::ScriptPublicKey;
use utxo_import::utxo::UtxoEntry;

fn sample() -> UtxoEntry {
    UtxoEntry {
        outpoint: Outpoint { transaction_id: [0xab; 32], index: 0x01020304 },
        amount: 100,
        script_public_key: ScriptPublicKey { version: 1, script: vec![0x20, 0xac] },
        block_daa_score: 0x0102030405060708,
        is_coinbase: true,
    }
}

fn frame(record: &RawRecord) -> Vec<u8> {
    let mut out = (record.value.len() as u32).to_be_bytes().to_vec();
    out.extend_from_slice(&record.key);
    out.extend_from_slice(&record.value);
    out
}

#[test]
fn encode_record_lays_out_big_endian_fields() {
    let record = encode_record(&sample());
    let mut key = vec![0xab; 32];
    key.extend_from_slice(&[1, 2, 3, 4]);
    assert_eq!(record.key, key);
    let value = vec![
        0, 0, 0, 0, 0, 0, 0, 100, 1, 2, 3, 4, 5, 6, 7, 8, 1, 0, 1, 0x20, 0xac,
    ];
    assert_eq!(record.value, value);
}

#[test]
fn decode_record_reads_each_field() {
    let mut key = vec![7u8; 32];
    key.extend_from_slice(&[0, 0, 1, 0]);
    let value = vec![0, 0, 0, 0, 0, 0, 1, 0, 0, 0, 0, 0, 0, 0, 0, 9, 0, 0xff, 0xfe, 5, 6, 7];
    let entry = decode_record(&RawRecord { key, value }).unwrap();
    assert_eq!(entry.outpoint, Outpoint { transaction_id: [7; 32], index: 256 });
    assert_eq!(entry.amount, 256);
    assert_eq!(entry.block_daa_score, 9);
    assert!(!entry.is_coinbase);
    assert_eq!(entry.script_public_key.version, 0xfffe);
    assert_eq!(entry.script_public_key.script, vec![5, 6, 7]);
}

#[test]
fn record_round_trips() {
    let entry = sample();
    assert_eq!(decode_record(&encode_record(&entry)), Ok(entry));
    let empty_script = UtxoEntry {
        outpoint: Outpoint { transaction_id: [0; 32], index: u32::MAX },
        amount: u64::MAX,
        script_public_key: ScriptPublicKey { version: u16::MAX, script: vec![] },
        block_daa_score: 0,
        is_coinbase: false,
    };
    assert_eq!(decode_record(&encode_record(&empty_script)), Ok(empty_script));
}

#[test]
fn decode_record_refuses_a_malformed_record() {
    let good = encode_record(&sample());
    let mut short_key = good.clone();
    short_key.key.pop();
    assert_eq!(decode_record(&short_key), Err(ImportError::ExtractionFailure));
    let mut long_key = good.clone();
    long_key.key.push(0);
    assert_eq!(decode_record(&long_key), Err(ImportError::ExtractionFailure));
    let mut short_value = good.clone();
    short_value.value.truncate(18);
    assert_eq!(decode_record(&short_value), Err(ImportError::ExtractionFailure));
    let mut bad_flag = good.clone();
    bad_flag.value[16] = 2;
    assert_eq!(decode_record(&bad_flag), Err(ImportError::ExtractionFailure));
    let mut header_only = good;
    header_only.value.truncate(19);
    assert_eq!(decode_record(&header_only).unwrap().script_public_key.script, Vec::<u8>::new());
}

#[test]
fn read_snapshot_splits_frames() {
    let first = encode_record(&sample());
    let mut second = encode_record(&sample());
    second.key[35] = 9;
    second.value.truncate(19);
    let mut bytes = frame(&first);
    bytes.extend_from_slice(&frame(&second));
    assert_eq!(read_snapshot(&bytes), Ok(vec![first, second]));
}

#[test]
fn read_snapshot_of_an_empty_file_is_empty() {
    assert_eq!(read_snapshot(&vec![]), Ok(vec![]));
}

#[test]
fn read_snapshot_refuses_a_file_that_ends_inside_a_frame() {
    let record = encode_record(&sample());
    let bytes = frame(&record);
    for cut in [1, 3, 4, 39, 40, bytes.len() - 1] {
        assert_eq!(read_snapshot(&bytes[..cut].to_vec()), Err(ImportError::ExtractionFailure));
    }
    let mut trailing = bytes.clone();
    trailing.push(0);
    assert_eq!(read_snapshot(&trailing), Err(ImportError::ExtractionFailure));
    let mut huge = vec![0xff, 0xff, 0xff, 0xff];
    huge.extend_from_slice(&[0; 36]);
    assert_eq!(read_snapshot(&huge), Err(ImportError::ExtractionFailure));
}

#[test]
fn read_snapshot_does_not_judge_the_value() {
    let mut bytes = vec![0, 0, 0, 1];
    bytes.extend_from_slice(&[3; 36]);
    bytes.push(42);
    assert_eq!(
        read_snapshot(&bytes),
        Ok(vec![RawRecord { key: vec![3; 36], value: vec![42] }])
    );
}
