//! The relational target as the import sees it: the UTXO table, the
//! single-row metadata table that guards it, and a staging area whose rows
//! no reader sees until they are published.

use crate::error::ImportError;
use crate::network::NetworkIdentity;
use crate::network::NetworkType;
use crate::utxo::distinct_outpoints;
use crate::utxo::holds_outpoint;
use crate::utxo::models;
use crate::utxo::Outpoint;
use crate::utxo::UtxoEntry;
use crate::utxo::UtxoModel;
use vstd::prelude::*;

verus! {

/// The one row of the metadata table: which network was imported, and when.
#[derive(Clone, Copy, Debug, PartialEq, Eq, Structural)]
pub struct MetaRecord {
    pub network_type: NetworkType,
    pub suffix: Option<u32>,
    pub imported_at: u64,
}

impl MetaRecord {
    /// The row that records an import of `identity` at `imported_at`.
    pub open spec fn stamped(identity: NetworkIdentity, imported_at: u64) -> MetaRecord {
        MetaRecord { network_type: identity.network_type, suffix: identity.suffix, imported_at }
    }

    /// The network that the row records.
    pub open spec fn spec_identity(self) -> NetworkIdentity {
        NetworkIdentity { network_type: self.network_type, suffix: self.suffix }
    }

    /// The network that the row records.
    pub fn identity(&self) -> (r: NetworkIdentity)
        ensures
            r == self.spec_identity(),
    {
        NetworkIdentity { network_type: self.network_type, suffix: self.suffix }
    }
}

/// The metadata row after an attempt to write one: a row that is there stays.
pub open spec fn meta_after_store(
    meta: Option<MetaRecord>,
    identity: NetworkIdentity,
    imported_at: u64,
) -> Option<MetaRecord> {
    match meta {
        None => Some(MetaRecord::stamped(identity, imported_at)),
        Some(_) => meta,
    }
}

/// Whether an attempt to write the metadata row succeeds: only if there is
/// none yet.
pub open spec fn store_meta_result(meta: Option<MetaRecord>) -> Result<(), ImportError> {
    match meta {
        None => Ok(()),
        Some(_) => Err(ImportError::AlreadyInitialized),
    }
}

/// Of two attempts to write the metadata row of an empty table, the first
/// succeeds and the second fails and leaves the row of the first as it is.
pub proof fn lemma_gate_write_once(
    first: NetworkIdentity,
    first_at: u64,
    second: NetworkIdentity,
    second_at: u64,
)
    ensures
        store_meta_result(None) is Ok,
        store_meta_result(meta_after_store(None, first, first_at)) == Err::<(), ImportError>(
            ImportError::AlreadyInitialized,
        ),
        meta_after_store(meta_after_store(None, first, first_at), second, second_at) == Some(
            MetaRecord::stamped(first, first_at),
        ),
{
}

/// What readers of the target see.
pub struct StoreModel {
    pub rows: Seq<UtxoModel>,
    pub meta: Option<MetaRecord>,
}

/// Whether `outpoint` is among the first `upto` entries.
fn holds(rows: &Vec<UtxoEntry>, upto: usize, outpoint: &Outpoint) -> (r: bool)
    requires
        upto <= rows.len(),
    ensures
        r == holds_outpoint(models(rows@).take(upto as int), outpoint@),
{
    let ghost taken = models(rows@).take(upto as int);
    let mut i: usize = 0;
    while i < upto
        invariant
            i <= upto <= rows.len(),
            taken == models(rows@).take(upto as int),
            forall|k: int| 0 <= k < i ==> (#[trigger] taken[k]).outpoint != outpoint@,
        decreases upto - i,
    {
        if rows[i].outpoint.same_as(outpoint) {
            assert(taken[i as int].outpoint == outpoint@);
            return true;
        }
        i = i + 1;
    }
    false
}

/// Rows with one more row behind them hold no outpoint twice exactly if
/// they held none twice before and none of them carries the new outpoint.
proof fn lemma_distinct_push(rows: Seq<UtxoModel>, row: UtxoModel)
    ensures
        distinct_outpoints(rows.push(row)) == (distinct_outpoints(rows) && !holds_outpoint(
            rows,
            row.outpoint,
        )),
{
    let joined = rows.push(row);
    if distinct_outpoints(joined) {
        assert forall|i: int, j: int| 0 <= i < j < rows.len() implies (#[trigger] rows[i]).outpoint
            != (#[trigger] rows[j]).outpoint by {
            assert(joined[i] == rows[i] && joined[j] == rows[j]);
        }
        if holds_outpoint(rows, row.outpoint) {
            let i = choose|i: int| 0 <= i < rows.len() && (#[trigger] rows[i]).outpoint
                == row.outpoint;
            assert(joined[i] == rows[i] && joined[rows.len() as int] == row);
        }
    }
    if distinct_outpoints(rows) && !holds_outpoint(rows, row.outpoint) {
        assert forall|i: int, j: int| 0 <= i < j < joined.len() implies (
        #[trigger] joined[i]).outpoint != (#[trigger] joined[j]).outpoint by {
            if j < rows.len() {
                assert(joined[i] == rows[i] && joined[j] == rows[j]);
            } else {
                assert(joined[i] == rows[i]);
            }
        }
    }
}

/// The beginning of rows that hold no outpoint twice holds none twice.
proof fn lemma_distinct_prefix(rows: Seq<UtxoModel>, n: int)
    requires
        0 <= n <= rows.len(),
        distinct_outpoints(rows),
    ensures
        distinct_outpoints(rows.take(n)),
{
    assert forall|i: int, j: int| 0 <= i < j < n implies (#[trigger] rows.take(n)[i]).outpoint != (
    #[trigger] rows.take(n)[j]).outpoint by {
        assert(rows.take(n)[i] == rows[i] && rows.take(n)[j] == rows[j]);
    }
}

/// The target of an import.
pub struct TargetStore {
    rows: Vec<UtxoEntry>,
    meta: Option<MetaRecord>,
    staged: Vec<UtxoEntry>,
    open: bool,
    row_limit: usize,
}

impl View for TargetStore {
    type V = StoreModel;

    closed spec fn view(&self) -> StoreModel {
        StoreModel { rows: models(self.rows@), meta: self.meta }
    }
}

impl TargetStore {
    /// The rows staged by the import in progress, if there is one.
    pub closed spec fn staged(&self) -> Option<Seq<UtxoModel>> {
        if self.open {
            Some(models(self.staged@))
        } else {
            None
        }
    }

    /// The number of rows that the target has room for.
    pub closed spec fn row_limit(&self) -> nat {
        self.row_limit as nat
    }

    /// The invariant that every target keeps.
    pub closed spec fn wf(&self) -> bool {
        &&& distinct_outpoints(models(self.rows@))
        &&& distinct_outpoints(models(self.staged@))
        &&& self.rows.len() <= self.row_limit
        &&& self.staged.len() <= self.row_limit
        &&& !self.open ==> self.staged.len() == 0
        &&& self.meta is None ==> self.rows.len() == 0
    }

    /// What the invariant means for readers: the UTXO table holds no
    /// outpoint twice, and holds rows only beside a metadata row.
    pub proof fn lemma_wf(&self)
        requires
            self.wf(),
        ensures
            distinct_outpoints(self@.rows),
            self@.rows.len() <= self.row_limit() <= usize::MAX,
            self@.meta is None ==> self@.rows.len() == 0,
            self.staged() is Some ==> distinct_outpoints(self.staged()->0)
                && self.staged()->0.len() <= self.row_limit(),
    {
    }

    /// An empty target with room for `row_limit` rows.
    pub fn new(row_limit: usize) -> (r: TargetStore)
        ensures
            r.wf(),
            r@.rows.len() == 0,
            r@.meta is None,
            r.staged() is None,
            r.row_limit() == row_limit,
    {
        TargetStore { rows: Vec::new(), meta: None, staged: Vec::new(), open: false, row_limit }
    }

    /// Reads the metadata row, if there is one.
    pub fn get_meta(&self) -> (r: Option<MetaRecord>)
        ensures
            r == self@.meta,
    {
        self.meta
    }

    /// The number of rows in the UTXO table.
    pub fn row_count(&self) -> (r: usize)
        ensures
            r == self@.rows.len(),
    {
        self.rows.len()
    }

    /// The rows of the UTXO table.
    pub fn rows(&self) -> (r: &Vec<UtxoEntry>)
        ensures
            models(r@) == self@.rows,
    {
        &self.rows
    }

    /// Whether an import is in progress.
    pub fn is_staging(&self) -> (r: bool)
        ensures
            r == self.staged() is Some,
    {
        self.open
    }

    /// Writes the metadata row unless there is one already. The row that is
    /// there is never replaced.
    pub fn store_meta(&mut self, identity: NetworkIdentity, imported_at: u64) -> (r: Result<
        (),
        ImportError,
    >)
        requires
            old(self).wf(),
        ensures
            final(self).wf(),
            final(self)@.rows == old(self)@.rows,
            final(self).staged() == old(self).staged(),
            final(self).row_limit() == old(self).row_limit(),
            r == store_meta_result(old(self)@.meta),
            final(self)@.meta == meta_after_store(old(self)@.meta, identity, imported_at),
    {
        match self.meta {
            Some(_) => Err(ImportError::AlreadyInitialized),
            None => {
                self.meta = Some(
                    MetaRecord {
                        network_type: identity.network_type,
                        suffix: identity.suffix,
                        imported_at,
                    },
                );
                Ok(())
            },
        }
    }

    /// Opens an empty staging area. Fails if an import is in progress.
    pub fn begin(&mut self) -> (r: Result<(), ImportError>)
        requires
            old(self).wf(),
        ensures
            final(self).wf(),
            final(self)@ == old(self)@,
            final(self).row_limit() == old(self).row_limit(),
            old(self).staged() is None ==> r is Ok && final(self).staged() == Some(
                Seq::<UtxoModel>::empty(),
            ),
            old(self).staged() is Some ==> r == Err::<(), ImportError>(ImportError::LoadFailure)
                && final(self).staged() == old(self).staged(),
    {
        if self.open {
            Err(ImportError::LoadFailure)
        } else {
            self.open = true;
            assert(models(self.staged@) =~= Seq::<UtxoModel>::empty());
            Ok(())
        }
    }

    /// Whether the staging area takes `batch` as a whole: an import is in
    /// progress, there is room, and no outpoint would be staged twice.
    pub open spec fn accepts(&self, batch: Seq<UtxoModel>) -> bool {
        &&& self.staged() is Some
        &&& self.staged()->0.len() + batch.len() <= self.row_limit()
        &&& distinct_outpoints(self.staged()->0 + batch)
    }

    /// Stages a batch as one statement: all of its rows or none. What
    /// readers see does not change.
    pub fn insert_batch(&mut self, batch: Vec<UtxoEntry>) -> (r: Result<usize, ImportError>)
        requires
            old(self).wf(),
        ensures
            final(self).wf(),
            final(self)@ == old(self)@,
            final(self).row_limit() == old(self).row_limit(),
            old(self).accepts(models(batch@)) ==> r == Ok::<usize, ImportError>(batch.len())
                && final(self).staged() == Some(old(self).staged()->0 + models(batch@)),
            !old(self).accepts(models(batch@)) ==> r == Err::<usize, ImportError>(
                ImportError::LoadFailure,
            ) && final(self).staged() == old(self).staged(),
    {
        if !self.open {
            return Err(ImportError::LoadFailure);
        }
        if batch.len() > self.row_limit - self.staged.len() {
            return Err(ImportError::LoadFailure);
        }
        let ghost staged = models(self.staged@);
        let ghost incoming = models(batch@);
        let mut i: usize = 0;
        assert(staged + incoming.take(0) =~= staged);
        while i < batch.len()
            invariant
                i <= batch.len(),
                staged == models(self.staged@),
                incoming == models(batch@),
                distinct_outpoints(staged + incoming.take(i as int)),
                *self == *old(self),
                self.wf(),
                self.open,
                batch.len() <= self.row_limit - self.staged.len(),
            decreases batch.len() - i,
        {
            let outpoint = &batch[i].outpoint;
            let ghost seen = staged + incoming.take(i as int);
            let ghost row = incoming[i as int];
            proof {
                assert(models(self.staged@).take(self.staged.len() as int) =~= staged);
                assert(staged + incoming.take(i as int + 1) =~= seen.push(row));
                lemma_distinct_push(seen, row);
                assert(holds_outpoint(seen, row.outpoint) == (holds_outpoint(staged, row.outpoint)
                    || holds_outpoint(incoming.take(i as int), row.outpoint))) by {
                    if holds_outpoint(seen, row.outpoint) {
                        let k = choose|k: int| 0 <= k < seen.len() && (#[trigger] seen[k]).outpoint
                            == row.outpoint;
                        if k < staged.len() {
                            assert(staged[k] == seen[k]);
                        } else {
                            assert(incoming.take(i as int)[k - staged.len()] == seen[k]);
                        }
                    }
                    if holds_outpoint(staged, row.outpoint) {
                        let k = choose|k: int| 0 <= k < staged.len() && (
                        #[trigger] staged[k]).outpoint == row.outpoint;
                        assert(seen[k] == staged[k]);
                    }
                    if holds_outpoint(incoming.take(i as int), row.outpoint) {
                        let k = choose|k: int| 0 <= k < i && (#[trigger] incoming.take(
                            i as int,
                        )[k]).outpoint == row.outpoint;
                        assert(seen[staged.len() + k] == incoming.take(i as int)[k]);
                    }
                }
            }
            if holds(&self.staged, self.staged.len(), outpoint) || holds(&batch, i, outpoint) {
                proof {
                    if distinct_outpoints(staged + incoming) {
                        assert((staged + incoming).take(staged.len() + i + 1) =~= seen.push(row));
                        lemma_distinct_prefix(staged + incoming, staged.len() + i + 1);
                    }
                }
                return Err(ImportError::LoadFailure);
            }
            i = i + 1;
        }
        assert(incoming.take(i as int) =~= incoming);
        let count = batch.len();
        let mut batch = batch;
        self.staged.append(&mut batch);
        assert(models(self.staged@) =~= staged + incoming);
        Ok(count)
    }

    /// Drops whatever is staged. What readers see does not change.
    pub fn rollback(&mut self)
        requires
            old(self).wf(),
        ensures
            final(self).wf(),
            final(self)@ == old(self)@,
            final(self).row_limit() == old(self).row_limit(),
            final(self).staged() is None,
    {
        self.staged.clear();
        self.open = false;
    }

    /// Publishes the staged rows together with the metadata row, in one
    /// step. If a metadata row is there already, nothing is published and
    /// the staging area is dropped.
    pub fn publish(&mut self, identity: NetworkIdentity, imported_at: u64) -> (r: Result<
        usize,
        ImportError,
    >)
        requires
            old(self).wf(),
        ensures
            final(self).wf(),
            final(self).row_limit() == old(self).row_limit(),
            match (old(self).staged(), old(self)@.meta) {
                (None, _) => r == Err::<usize, ImportError>(ImportError::LoadFailure)
                    && final(self)@ == old(self)@ && final(self).staged() is None,
                (Some(_), Some(_)) => r == Err::<usize, ImportError>(
                    ImportError::AlreadyInitialized,
                ) && final(self)@ == old(self)@ && final(self).staged() is None,
                (Some(staged), None) => r == Ok::<usize, ImportError>(staged.len() as usize)
                    && final(self)@.rows == staged && final(self)@.meta == Some(
                    MetaRecord::stamped(identity, imported_at),
                ) && final(self).staged() is None,
            },
    {
        if !self.open {
            return Err(ImportError::LoadFailure);
        }
        if self.meta.is_some() {
            self.rollback();
            return Err(ImportError::AlreadyInitialized);
        }
        let ghost staged = models(self.staged@);
        let mut published: Vec<UtxoEntry> = Vec::new();
        published.append(&mut self.staged);
        assert(models(published@) =~= staged);
        let count = published.len();
        self.rows = published;
        self.meta = Some(
            MetaRecord { network_type: identity.network_type, suffix: identity.suffix, imported_at },
        );
        self.open = false;
        Ok(count)
    }
}

} // verus!
