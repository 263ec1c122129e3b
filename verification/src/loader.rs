//! Loading the extracted UTXO set into the target: batch by batch into the
//! staging area, then published in one step together with the metadata row.
//! A run that fails anywhere leaves what readers see exactly as it was.

use crate::codec::RawModel;
use crate::error::ImportError;
use crate::extractor::entries_between;
use crate::extractor::readable;
use crate::extractor::record_ok;
use crate::extractor::Extractor;
use crate::extractor::ExtractorModel;
use crate::extractor::ExtractorState;
use crate::network::NetworkIdentity;
use crate::store::MetaRecord;
use crate::store::TargetStore;
use crate::utxo::distinct_outpoints;
use crate::utxo::lemma_ascending_is_distinct;
use crate::utxo::models;
use crate::utxo::outpoint_before;
use crate::utxo::UtxoModel;
use vstd::prelude::*;

verus! {

/// The index just behind the batch that starts at `from`.
pub open spec fn batch_end(source: Seq<RawModel>, from: int, batch_size: nat) -> int {
    if from + batch_size <= source.len() {
        from + batch_size
    } else {
        source.len() as int
    }
}

/// How staging the records from `from` on ends, batch by batch, when the
/// records from `start` up to `from` are staged already: with the number of
/// rows staged, or with the first failure. A batch is read before it is
/// staged, so of a batch that cannot be read nothing is staged.
pub open spec fn staging_outcome(
    source: Seq<RawModel>,
    start: int,
    from: int,
    row_limit: nat,
    batch_size: nat,
) -> Result<nat, ImportError>
    decreases source.len() - from,
{
    if batch_size == 0 || from >= source.len() {
        Ok((from - start) as nat)
    } else {
        let to = batch_end(source, from, batch_size);
        if !readable(source, from, to) {
            Err(ImportError::ExtractionFailure)
        } else if to - start > row_limit {
            Err(ImportError::LoadFailure)
        } else {
            staging_outcome(source, start, to, row_limit, batch_size)
        }
    }
}

/// How a load ends: with the number of rows published, or with the first
/// failure met.
pub open spec fn load_outcome(
    meta: Option<MetaRecord>,
    staging: bool,
    row_limit: nat,
    extractor: ExtractorModel,
    batch_size: nat,
) -> Result<nat, ImportError> {
    if batch_size == 0 || staging {
        Err(ImportError::LoadFailure)
    } else {
        let staged = match extractor.state {
            ExtractorState::Failed => Err(ImportError::ExtractionFailure),
            ExtractorState::Exhausted => Ok(0nat),
            ExtractorState::Reading => staging_outcome(
                extractor.source,
                extractor.position as int,
                extractor.position as int,
                row_limit,
                batch_size,
            ),
        };
        match staged {
            Err(e) => Err(e),
            Ok(n) => if meta is Some {
                Err(ImportError::AlreadyInitialized)
            } else {
                Ok(n)
            },
        }
    }
}

/// Staging succeeds exactly if every remaining record can be read and all
/// of them fit; the batch size has no part in it.
pub proof fn lemma_staging_succeeds(
    source: Seq<RawModel>,
    start: int,
    from: int,
    row_limit: nat,
    batch_size: nat,
)
    requires
        batch_size > 0,
        0 <= start <= from <= source.len(),
        from - start <= row_limit,
    ensures
        staging_outcome(source, start, from, row_limit, batch_size) is Ok <==> readable(
            source,
            from,
            source.len() as int,
        ) && source.len() - start <= row_limit,
        staging_outcome(source, start, from, row_limit, batch_size) is Ok ==> staging_outcome(
            source,
            start,
            from,
            row_limit,
            batch_size,
        )->Ok_0 == source.len() - start,
        staging_outcome(source, start, from, row_limit, batch_size) is Err ==> {
            let e = staging_outcome(source, start, from, row_limit, batch_size)->Err_0;
            &&& e == ImportError::ExtractionFailure || e == ImportError::LoadFailure
            &&& e == ImportError::ExtractionFailure ==> !readable(
                source,
                from,
                source.len() as int,
            )
            &&& e == ImportError::LoadFailure ==> source.len() - start > row_limit
        },
    decreases source.len() - from,
{
    if from < source.len() {
        let to = batch_end(source, from, batch_size);
        if readable(source, from, to) && to - start <= row_limit {
            lemma_staging_succeeds(source, start, to, row_limit, batch_size);
            if readable(source, to, source.len() as int) {
                assert forall|i: int| from <= i < source.len() implies #[trigger] record_ok(
                    source,
                    i,
                ) by {
                    if i < to {
                        assert(record_ok(source, i));
                    }
                }
            }
        }
    }
}

/// A load succeeds exactly if the batch size is positive, no other import
/// is in progress, every remaining record can be read, all of them fit, and
/// the target has no metadata row; it then publishes as many rows as remain.
pub proof fn lemma_load_succeeds(
    meta: Option<MetaRecord>,
    staging: bool,
    row_limit: nat,
    extractor: ExtractorModel,
    batch_size: nat,
)
    requires
        extractor.position <= extractor.source.len(),
    ensures
        load_outcome(meta, staging, row_limit, extractor, batch_size) is Ok <==> {
            &&& batch_size > 0
            &&& !staging
            &&& meta is None
            &&& extractor.remaining() is Some
            &&& extractor.remaining()->0.len() <= row_limit
        },
        load_outcome(meta, staging, row_limit, extractor, batch_size) is Ok ==> load_outcome(
            meta,
            staging,
            row_limit,
            extractor,
            batch_size,
        )->Ok_0 == extractor.remaining()->0.len(),
{
    if batch_size > 0 && extractor.state == ExtractorState::Reading {
        lemma_staging_succeeds(
            extractor.source,
            extractor.position as int,
            extractor.position as int,
            row_limit,
            batch_size,
        );
    }
}

/// The entries of records that can all be read hold no outpoint twice.
pub proof fn lemma_readable_is_distinct(source: Seq<RawModel>, from: int, to: int)
    requires
        0 <= from <= to <= source.len(),
        readable(source, 0, to),
    ensures
        distinct_outpoints(entries_between(source, from, to)),
{
    let rows = entries_between(source, from, to);
    assert forall|i: int| 0 <= i < rows.len() - 1 implies outpoint_before(
        (#[trigger] rows[i]).outpoint,
        rows[i + 1].outpoint,
    ) by {
        assert(record_ok(source, from + i + 1));
    }
    lemma_ascending_is_distinct(rows);
}

/// Loads everything that the extractor still has to yield, in batches of
/// `batch_size`, and stamps the target with `identity`.
///
/// On success the target holds exactly the extracted rows and one metadata
/// row. On any failure what readers of the target see is unchanged.
pub fn load(
    store: &mut TargetStore,
    extractor: &mut Extractor,
    identity: NetworkIdentity,
    imported_at: u64,
    batch_size: usize,
) -> (r: Result<usize, ImportError>)
    requires
        old(store).wf(),
        old(extractor).wf(),
    ensures
        final(store).wf(),
        final(extractor).wf(),
        final(extractor)@.source == old(extractor)@.source,
        final(store).row_limit() == old(store).row_limit(),
        final(store).staged() == old(store).staged(),
        match load_outcome(
            old(store)@.meta,
            old(store).staged() is Some,
            old(store).row_limit(),
            old(extractor)@,
            batch_size as nat,
        ) {
            Ok(n) => {
                &&& r == Ok::<usize, ImportError>(n as usize)
                &&& Some(final(store)@.rows) == old(extractor)@.remaining()
                &&& final(store)@.rows.len() == n
                &&& final(store)@.meta == Some(MetaRecord::stamped(identity, imported_at))
                &&& final(extractor)@.state == ExtractorState::Exhausted
            },
            Err(e) => {
                &&& r == Err::<usize, ImportError>(e)
                &&& final(store)@ == old(store)@
                &&& e == ImportError::ExtractionFailure ==> final(extractor)@.state
                    == ExtractorState::Failed
                &&& e == ImportError::AlreadyInitialized ==> final(extractor)@.state
                    == ExtractorState::Exhausted
                &&& batch_size == 0 || old(store).staged() is Some ==> final(extractor)@ == old(
                    extractor,
                )@
            },
        },
{
    if batch_size == 0 {
        return Err(ImportError::LoadFailure);
    }
    match store.begin() {
        Err(e) => {
            return Err(e);
        },
        Ok(_) => {},
    }
    if extractor.state() == ExtractorState::Failed {
        store.rollback();
        return Err(ImportError::ExtractionFailure);
    }
    let ghost source = extractor@.source;
    let ghost start = extractor@.position as int;
    let ghost outcome = staging_outcome(
        source,
        start,
        start,
        store.row_limit(),
        batch_size as nat,
    );
    proof {
        extractor.lemma_wf();
        assert(entries_between(source, start, start) =~= Seq::<UtxoModel>::empty());
    }
    while extractor.state() == ExtractorState::Reading
        invariant
            store.wf(),
            extractor.wf(),
            batch_size > 0,
            extractor@.source == source,
            old(extractor)@.source == source,
            old(extractor)@.position == start,
            old(extractor)@.state != ExtractorState::Failed,
            old(extractor)@.state == ExtractorState::Exhausted ==> extractor@.state
                == ExtractorState::Exhausted && start == extractor@.position,
            extractor@.state != ExtractorState::Failed,
            store@ == old(store)@,
            store.row_limit() == old(store).row_limit(),
            old(store).staged() is None,
            0 <= start <= extractor@.position <= source.len(),
            readable(source, start, extractor@.position as int),
            store.staged() == Some(entries_between(source, start, extractor@.position as int)),
            extractor@.position - start <= store.row_limit(),
            old(extractor)@.state == ExtractorState::Reading ==> outcome == staging_outcome(
                source,
                start,
                start,
                store.row_limit(),
                batch_size as nat,
            ) && outcome == staging_outcome(
                source,
                start,
                extractor@.position as int,
                store.row_limit(),
                batch_size as nat,
            ),
        decreases source.len() - extractor@.position,
    {
        let ghost from = extractor@.position as int;
        let ghost to = batch_end(source, from, batch_size as nat);
        let ghost staged = store.staged()->0;
        proof {
            extractor.lemma_wf();
            assert(to == extractor@.batch_end(batch_size as nat));
        }
        match extractor.next_batch(batch_size) {
            Err(e) => {
                store.rollback();
                return Err(e);
            },
            Ok(batch) => {
                proof {
                    extractor.lemma_wf();
                    assert(readable(source, 0, to)) by {
                        if extractor@.state == ExtractorState::Exhausted {
                            assert(crate::extractor::extracted(source) is Some);
                        }
                    }
                    lemma_readable_is_distinct(source, start, to);
                    assert(staged + models(batch@) =~= entries_between(source, start, to));
                    assert forall|i: int| start <= i < to implies #[trigger] record_ok(
                        source,
                        i,
                    ) by {
                        if i < from {
                            assert(record_ok(source, i));
                        }
                    }
                }
                match store.insert_batch(batch) {
                    Err(e) => {
                        store.rollback();
                        return Err(e);
                    },
                    Ok(_) => {},
                }
            },
        }
    }
    proof {
        extractor.lemma_wf();
        assert(entries_between(source, start, source.len() as int) =~= old(
            extractor,
        )@.remaining()->0) by {
            if old(extractor)@.state == ExtractorState::Exhausted {
                old(extractor).lemma_wf();
            }
        }
    }
    store.publish(identity, imported_at)
}

} // verus!
