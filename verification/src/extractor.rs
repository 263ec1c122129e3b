//! Reading the pruning-point UTXO set out of a snapshot of raw records.
//!
//! A consensus store hands out its records in ascending order of outpoint.
//! The extractor decodes them one at a time and treats a record that is
//! malformed, or that does not come after its predecessor, as corruption.
//! What it yields therefore never holds an outpoint twice.

use crate::codec::decode_record;
use crate::codec::decoded_entry;
use crate::codec::raw_models;
use crate::codec::RawModel;
use crate::codec::RawRecord;
use crate::error::ImportError;
use crate::utxo::ascending;
use crate::utxo::distinct_outpoints;
use crate::utxo::lemma_ascending_is_distinct;
use crate::utxo::models;
use crate::utxo::outpoint_before;
use crate::utxo::Outpoint;
use crate::utxo::UtxoEntry;
use crate::utxo::UtxoModel;
use vstd::prelude::*;

verus! {

/// Where an extractor stands in its one pass over the store.
#[derive(Clone, Copy, Debug, PartialEq, Eq, Structural)]
pub enum ExtractorState {
    /// More records are to be read.
    Reading,
    /// Every record has been yielded.
    Exhausted,
    /// A record could not be read; nothing more is yielded.
    Failed,
}

/// The entry that record `i` writes, if it is well formed.
pub open spec fn entry_at(source: Seq<RawModel>, i: int) -> Option<UtxoModel> {
    decoded_entry(source[i].key, source[i].value)
}

/// Record `i` is well formed and comes after record `i - 1`.
pub open spec fn record_ok(source: Seq<RawModel>, i: int) -> bool {
    &&& entry_at(source, i) is Some
    &&& i > 0 ==> entry_at(source, i - 1) is Some && outpoint_before(
        entry_at(source, i - 1)->0.outpoint,
        entry_at(source, i)->0.outpoint,
    )
}

/// Every record from `from` up to `to` can be read.
pub open spec fn readable(source: Seq<RawModel>, from: int, to: int) -> bool {
    forall|i: int| from <= i < to ==> #[trigger] record_ok(source, i)
}

/// The entries of the records from `from` up to `to`, in store order.
pub open spec fn entries_between(source: Seq<RawModel>, from: int, to: int) -> Seq<UtxoModel> {
    Seq::new((to - from) as nat, |k: int| entry_at(source, from + k)->0)
}

/// The whole UTXO set that a store holds, or `None` if any record of it
/// cannot be read.
pub open spec fn extracted(source: Seq<RawModel>) -> Option<Seq<UtxoModel>> {
    if readable(source, 0, source.len() as int) {
        Some(entries_between(source, 0, source.len() as int))
    } else {
        None
    }
}

/// An extractor as a mathematical value.
pub struct ExtractorModel {
    pub source: Seq<RawModel>,
    pub position: nat,
    pub state: ExtractorState,
}

impl ExtractorModel {
    /// The index just behind a batch of at most `limit` records.
    pub open spec fn batch_end(self, limit: nat) -> int {
        if self.position + limit <= self.source.len() {
            (self.position + limit) as int
        } else {
            self.source.len() as int
        }
    }

    /// What is still to come: the entries not yet yielded, or `None` if one
    /// of them cannot be read.
    pub open spec fn remaining(self) -> Option<Seq<UtxoModel>> {
        match self.state {
            ExtractorState::Reading => if readable(
                self.source,
                self.position as int,
                self.source.len() as int,
            ) {
                Some(entries_between(self.source, self.position as int, self.source.len() as int))
            } else {
                None
            },
            ExtractorState::Exhausted => Some(Seq::<UtxoModel>::empty()),
            ExtractorState::Failed => None,
        }
    }
}

/// A lazy, finite, one-pass reader of the UTXO set.
pub struct Extractor {
    records: Vec<RawRecord>,
    position: usize,
    last: Option<Outpoint>,
    state: ExtractorState,
}

impl View for Extractor {
    type V = ExtractorModel;

    closed spec fn view(&self) -> ExtractorModel {
        ExtractorModel {
            source: raw_models(self.records@),
            position: self.position as nat,
            state: self.state,
        }
    }
}

impl Extractor {
    /// The invariant that every extractor keeps.
    pub closed spec fn wf(&self) -> bool {
        let source = raw_models(self.records@);
        &&& self.position <= self.records.len()
        &&& match self.state {
            ExtractorState::Reading => {
                &&& self.position < self.records.len()
                &&& readable(source, 0, self.position as int)
                &&& self.position > 0 ==> self.last is Some && self.last->0@ == entry_at(
                    source,
                    self.position - 1,
                )->0.outpoint
            },
            ExtractorState::Exhausted => {
                &&& self.position == self.records.len()
                &&& readable(source, 0, self.position as int)
            },
            ExtractorState::Failed => {
                &&& self.position < self.records.len()
                &&& !record_ok(source, self.position as int)
            },
        }
    }

    /// What a valid extractor's state says about its position.
    pub proof fn lemma_wf(&self)
        requires
            self.wf(),
        ensures
            self@.position <= self@.source.len(),
            self@.state == ExtractorState::Reading ==> self@.position < self@.source.len()
                && readable(self@.source, 0, self@.position as int),
            self@.state == ExtractorState::Exhausted ==> self@.position == self@.source.len()
                && extracted(self@.source) is Some,
            self@.state == ExtractorState::Failed ==> extracted(self@.source) is None,
    {
        if self.state == ExtractorState::Failed {
            assert(!record_ok(self@.source, self.position as int));
        }
    }

    /// The state of the pass.
    pub fn state(&self) -> (r: ExtractorState)
        ensures
            r == self@.state,
    {
        self.state
    }

    /// How many entries have been yielded so far.
    pub fn position(&self) -> (r: usize)
        ensures
            r == self@.position,
    {
        self.position
    }

    /// Yields the next entry. `None` once the store is exhausted; an error,
    /// again and again, once a record could not be read.
    pub fn next_entry(&mut self) -> (r: Option<Result<UtxoEntry, ImportError>>)
        requires
            old(self).wf(),
        ensures
            final(self).wf(),
            final(self)@.source == old(self)@.source,
            match old(self)@.state {
                ExtractorState::Exhausted => r is None && final(self)@ == old(self)@,
                ExtractorState::Failed => r == Some(
                    Err::<UtxoEntry, ImportError>(ImportError::ExtractionFailure),
                ) && final(self)@ == old(self)@,
                ExtractorState::Reading => if record_ok(
                    old(self)@.source,
                    old(self)@.position as int,
                ) {
                    &&& r is Some
                    &&& r->0 is Ok
                    &&& Some(r->0->Ok_0@) == entry_at(old(self)@.source, old(self)@.position as int)
                    &&& final(self)@.position == old(self)@.position + 1
                    &&& final(self)@.state == if final(self)@.position == old(self)@.source.len() {
                        ExtractorState::Exhausted
                    } else {
                        ExtractorState::Reading
                    }
                } else {
                    &&& r == Some(Err::<UtxoEntry, ImportError>(ImportError::ExtractionFailure))
                    &&& final(self)@.position == old(self)@.position
                    &&& final(self)@.state == ExtractorState::Failed
                },
            },
    {
        match self.state {
            ExtractorState::Exhausted => None,
            ExtractorState::Failed => Some(Err(ImportError::ExtractionFailure)),
            ExtractorState::Reading => {
                let ghost source = raw_models(self.records@);
                let ghost at = self.position as int;
                assert(source[at] == self.records@[at]@);
                match decode_record(&self.records[self.position]) {
                    Err(_) => {
                        self.state = ExtractorState::Failed;
                        Some(Err(ImportError::ExtractionFailure))
                    },
                    Ok(entry) => {
                        let in_order = match &self.last {
                            None => true,
                            Some(previous) => self.position == 0 || previous.before(&entry.outpoint),
                        };
                        if !in_order {
                            self.state = ExtractorState::Failed;
                            return Some(Err(ImportError::ExtractionFailure));
                        }
                        assert(record_ok(source, at)) by {
                            if at > 0 {
                                assert(record_ok(source, at - 1));
                            }
                        }
                        self.last = Some(entry.outpoint);
                        self.position = self.position + 1;
                        if self.position == self.records.len() {
                            self.state = ExtractorState::Exhausted;
                        }
                        Some(Ok(entry))
                    },
                }
            },
        }
    }

    /// Yields the next entries, at most `limit` of them, as one batch.
    pub fn next_batch(&mut self, limit: usize) -> (r: Result<Vec<UtxoEntry>, ImportError>)
        requires
            old(self).wf(),
        ensures
            final(self).wf(),
            final(self)@.source == old(self)@.source,
            match old(self)@.state {
                ExtractorState::Exhausted => r is Ok && r->Ok_0@.len() == 0 && final(self)@ == old(
                    self,
                )@,
                ExtractorState::Failed => r is Err && r->Err_0 == ImportError::ExtractionFailure
                    && final(self)@ == old(self)@,
                ExtractorState::Reading => {
                    let from = old(self)@.position as int;
                    let to = old(self)@.batch_end(limit as nat);
                    if readable(old(self)@.source, from, to) {
                        &&& r is Ok
                        &&& models(r->Ok_0@) == entries_between(old(self)@.source, from, to)
                        &&& final(self)@.position == to
                        &&& final(self)@.state == if to == old(self)@.source.len() {
                            ExtractorState::Exhausted
                        } else {
                            ExtractorState::Reading
                        }
                    } else {
                        &&& r is Err
                        &&& r->Err_0 == ImportError::ExtractionFailure
                        &&& final(self)@.state == ExtractorState::Failed
                        &&& from <= final(self)@.position < to
                        &&& readable(old(self)@.source, from, final(self)@.position as int)
                        &&& !record_ok(old(self)@.source, final(self)@.position as int)
                    }
                },
            },
    {
        let mut batch: Vec<UtxoEntry> = Vec::new();
        match self.state {
            ExtractorState::Exhausted => {
                return Ok(batch);
            },
            ExtractorState::Failed => {
                return Err(ImportError::ExtractionFailure);
            },
            ExtractorState::Reading => {},
        }
        let ghost source = self@.source;
        let ghost from = self.position as int;
        let ghost to = self@.batch_end(limit as nat);
        assert(models(batch@) =~= entries_between(source, from, from));
        while batch.len() < limit && self.state == ExtractorState::Reading
            invariant
                self.wf(),
                self@.source == source,
                old(self)@.source == source,
                old(self)@.position == from,
                old(self)@.state == ExtractorState::Reading,
                from < source.len(),
                from <= self@.position <= to,
                to == if from + limit <= source.len() {
                    from + limit
                } else {
                    source.len() as int
                },
                self@.position == from + batch.len(),
                self@.state != ExtractorState::Failed,
                self@.state == ExtractorState::Exhausted <==> self@.position == source.len(),
                readable(source, from, self@.position as int),
                models(batch@) == entries_between(source, from, self@.position as int),
            decreases limit - batch.len(),
        {
            let ghost at = self.position as int;
            let ghost before = batch@;
            match self.next_entry() {
                Some(Ok(entry)) => {
                    batch.push(entry);
                    assert(models(batch@) =~= entries_between(source, from, at + 1)) by {
                        assert(batch@ =~= before.push(entry));
                        assert forall|k: int| 0 <= k < batch@.len() implies models(batch@)[k]
                            == entries_between(source, from, at + 1)[k] by {
                            if k < before.len() {
                                assert(models(before)[k] == entries_between(source, from, at)[k]);
                            }
                        }
                    }
                },
                _ => {
                    assert(!record_ok(source, at));
                    assert(!readable(source, from, to));
                    return Err(ImportError::ExtractionFailure);
                },
            }
        }
        Ok(batch)
    }
}

/// Starts the one pass over a store's records, in the order in which the
/// store holds them. Nothing is decoded before it is asked for.
pub fn extract(records: Vec<RawRecord>) -> (r: Extractor)
    ensures
        r.wf(),
        r@.source == raw_models(records@),
        r@.position == 0,
        r@.state == if records.len() == 0 {
            ExtractorState::Exhausted
        } else {
            ExtractorState::Reading
        },
{
    let state = if records.len() == 0 {
        ExtractorState::Exhausted
    } else {
        ExtractorState::Reading
    };
    Extractor { records, position: 0, last: None, state }
}

/// Whatever extraction yields holds no outpoint twice, and holds one entry
/// for each record of the store.
pub proof fn lemma_extracted_is_distinct(source: Seq<RawModel>)
    requires
        extracted(source) is Some,
    ensures
        distinct_outpoints(extracted(source)->0),
        extracted(source)->0.len() == source.len(),
{
    let rows = extracted(source)->0;
    assert forall|i: int| 0 <= i < rows.len() - 1 implies outpoint_before(
        (#[trigger] rows[i]).outpoint,
        rows[i + 1].outpoint,
    ) by {
        assert(record_ok(source, i + 1));
    }
    assert(ascending(rows));
    lemma_ascending_is_distinct(rows);
}

} // verus!
