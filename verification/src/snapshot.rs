//! The file that carries a consensus store's pruning-point UTXO set.
//!
//! The file is a run of frames and nothing else. A frame is one record:
//!
//! ```text
//! length of the value (4 bytes, big-endian) | key (36 bytes) | value
//! ```
//!
//! An empty file is an empty set. A file that ends inside a frame is
//! damaged as a whole.

use crate::codec::be_value;
use crate::codec::copy_range;
use crate::codec::lemma_be_value_bound;
use crate::codec::lemma_pow256_values;
use crate::codec::raw_models;
use crate::codec::read_be;
use crate::codec::RawModel;
use crate::codec::RawRecord;
use crate::error::ImportError;
use vstd::prelude::*;

verus! {

/// Length of what stands before the value in a frame: the value's length
/// and the key.
pub const FRAME_HEADER_LEN: usize = 40;

/// The records that a file holds, in order, or `None` if it ends inside a
/// frame.
pub open spec fn framed(bytes: Seq<u8>) -> Option<Seq<RawModel>>
    decreases bytes.len(),
{
    if bytes.len() == 0 {
        Some(Seq::<RawModel>::empty())
    } else if bytes.len() < FRAME_HEADER_LEN {
        None
    } else {
        let n = be_value(bytes.subrange(0, 4)) as int;
        if bytes.len() < FRAME_HEADER_LEN + n {
            None
        } else {
            match framed(bytes.skip(FRAME_HEADER_LEN + n)) {
                None => None,
                Some(rest) => Some(
                    seq![
                        RawModel {
                            key: bytes.subrange(4, 40),
                            value: bytes.subrange(40, 40 + n),
                        },
                    ] + rest,
                ),
            }
        }
    }
}

/// What a file holds, given the records of its first `offset` bytes.
pub open spec fn framed_from(bytes: Seq<u8>, offset: int, before: Seq<RawModel>) -> Option<
    Seq<RawModel>,
> {
    match framed(bytes.skip(offset)) {
        None => None,
        Some(rest) => Some(before + rest),
    }
}

/// Splits a file into its records.
pub fn read_snapshot(bytes: &Vec<u8>) -> (r: Result<Vec<RawRecord>, ImportError>)
    ensures
        match framed(bytes@) {
            Some(records) => r is Ok && raw_models(r->Ok_0@) == records,
            None => r is Err && r->Err_0 == ImportError::ExtractionFailure,
        },
{
    let mut records: Vec<RawRecord> = Vec::new();
    let mut offset: usize = 0;
    proof {
        assert(bytes@.skip(0) =~= bytes@);
        assert(raw_models(records@) =~= Seq::<RawModel>::empty());
        if framed(bytes@) is Some {
            assert(Seq::<RawModel>::empty() + framed(bytes@)->0 =~= framed(bytes@)->0);
        }
    }
    while offset < bytes.len()
        invariant
            offset <= bytes.len(),
            framed(bytes@) == framed_from(bytes@, offset as int, raw_models(records@)),
        decreases bytes.len() - offset,
    {
        let ghost rest = bytes@.skip(offset as int);
        let ghost before = raw_models(records@);
        let left: usize = bytes.len() - offset;
        if left < FRAME_HEADER_LEN {
            return Err(ImportError::ExtractionFailure);
        }
        let n: u64 = read_be(bytes, offset, 4);
        proof {
            assert(rest.subrange(0, 4) =~= bytes@.subrange(offset as int, offset + 4));
            lemma_pow256_values();
            lemma_be_value_bound(rest.subrange(0, 4));
        }
        if ((left - FRAME_HEADER_LEN) as u64) < n {
            return Err(ImportError::ExtractionFailure);
        }
        let size: usize = n as usize;
        let key: Vec<u8> = copy_range(bytes, offset + 4, offset + FRAME_HEADER_LEN);
        let value: Vec<u8> = copy_range(
            bytes,
            offset + FRAME_HEADER_LEN,
            offset + FRAME_HEADER_LEN + size,
        );
        let record = RawRecord { key, value };
        proof {
            assert(record@.key =~= rest.subrange(4, 40));
            assert(record@.value =~= rest.subrange(40, 40 + n));
            assert(rest.skip(FRAME_HEADER_LEN + n) =~= bytes@.skip(
                offset + FRAME_HEADER_LEN + size,
            ));
            let after = framed(bytes@.skip(offset + FRAME_HEADER_LEN + size));
            if after is Some {
                assert(raw_models(records@.push(record)) + after->0 =~= before + (seq![record@]
                    + after->0));
            }
        }
        records.push(record);
        offset = offset + FRAME_HEADER_LEN + size;
    }
    proof {
        assert(bytes@.skip(offset as int) =~= Seq::<u8>::empty());
        assert(raw_models(records@) + Seq::<RawModel>::empty() =~= raw_models(records@));
    }
    Ok(records)
}

} // verus!
