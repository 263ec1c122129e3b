//! The one-shot import run: check the peer, make sure the schema is ready,
//! consult the metadata gate, locate the store, extract and load.
//!
//! The run is a state machine. `next_stage` is its transition function, for
//! callers that do each step's outside work themselves; `run_import` drives
//! it over inputs that have been read already.

use crate::codec::raw_models;
use crate::codec::RawModel;
use crate::codec::RawRecord;
use crate::error::ImportError;
use crate::extractor::extracted;
use crate::extractor::extract;
use crate::extractor::ExtractorModel;
use crate::extractor::ExtractorState;
use crate::loader::lemma_load_succeeds;
use crate::loader::load;
use crate::loader::load_outcome;
use crate::locator::locate;
use crate::locator::located;
use crate::network::identity_of;
use crate::network::network_type_named;
use crate::network::reconcile;
use crate::network::reconciled;
use crate::network::resolve;
use crate::network::NetworkIdentity;
use crate::network::NetworkType;
use crate::store::MetaRecord;
use crate::store::StoreModel;
use crate::store::TargetStore;
use vstd::prelude::*;

verus! {

/// How far a run has come.
#[derive(Clone, Copy, Debug, PartialEq, Eq, Structural)]
pub enum Stage {
    Start,
    IdentityResolved,
    SchemaReady,
    /// The target carries a metadata row: nothing to do. Terminal, a success.
    AlreadyImported,
    StoreLocated,
    Extracted,
    Loaded,
    /// The UTXO set and the metadata row are published. Terminal, a success.
    Done,
    /// A step failed. Terminal.
    Aborted,
}

/// How the step that was due in a stage ended.
#[derive(Clone, Copy, Debug, PartialEq, Eq, Structural)]
pub enum Event {
    /// The step succeeded.
    Succeeded,
    /// The target was found to carry a metadata row.
    AlreadySeeded,
    /// The step failed.
    Failed(ImportError),
}

impl Stage {
    /// Whether a run ends in this stage.
    pub open spec fn terminal(self) -> bool {
        self == Stage::AlreadyImported || self == Stage::Done || self == Stage::Aborted
    }

    /// Whether a run that ends in this stage has succeeded.
    pub open spec fn successful(self) -> bool {
        self == Stage::AlreadyImported || self == Stage::Done
    }

    /// Whether a run ends in this stage.
    pub fn is_terminal(&self) -> (r: bool)
        ensures
            r == self.terminal(),
    {
        match self {
            Stage::AlreadyImported | Stage::Done | Stage::Aborted => true,
            _ => false,
        }
    }

    /// Whether a run that ends in this stage has succeeded.
    pub fn is_success(&self) -> (r: bool)
        ensures
            r == self.successful(),
    {
        match self {
            Stage::AlreadyImported | Stage::Done => true,
            _ => false,
        }
    }
}

/// The transition function of the run.
///
/// A terminal stage is never left. A success moves one stage on. A metadata
/// row that is there already ends the run as `AlreadyImported`, whether it
/// was found on reading or on an attempt to write. Every other failure ends
/// the run as `Aborted`, and so does `AlreadySeeded` in a stage that does
/// not read the metadata row.
pub open spec fn next_stage(stage: Stage, event: Event) -> Stage {
    if stage.terminal() {
        stage
    } else {
        match event {
            Event::Failed(ImportError::AlreadyInitialized) => Stage::AlreadyImported,
            Event::Failed(_) => Stage::Aborted,
            Event::AlreadySeeded => if stage == Stage::SchemaReady {
                Stage::AlreadyImported
            } else {
                Stage::Aborted
            },
            Event::Succeeded => match stage {
                Stage::Start => Stage::IdentityResolved,
                Stage::IdentityResolved => Stage::SchemaReady,
                Stage::SchemaReady => Stage::StoreLocated,
                Stage::StoreLocated => Stage::Extracted,
                Stage::Extracted => Stage::Loaded,
                _ => Stage::Done,
            },
        }
    }
}

/// Moves a run on by the outcome of the step that was due.
pub fn advance(stage: Stage, event: Event) -> (r: Stage)
    ensures
        r == next_stage(stage, event),
{
    if stage.is_terminal() {
        return stage;
    }
    match event {
        Event::Failed(ImportError::AlreadyInitialized) => Stage::AlreadyImported,
        Event::Failed(_) => Stage::Aborted,
        Event::AlreadySeeded => match stage {
            Stage::SchemaReady => Stage::AlreadyImported,
            _ => Stage::Aborted,
        },
        Event::Succeeded => match stage {
            Stage::Start => Stage::IdentityResolved,
            Stage::IdentityResolved => Stage::SchemaReady,
            Stage::SchemaReady => Stage::StoreLocated,
            Stage::StoreLocated => Stage::Extracted,
            Stage::Extracted => Stage::Loaded,
            _ => Stage::Done,
        },
    }
}

/// The stage reached from `stage` by a run of events, in order.
pub open spec fn stage_after(stage: Stage, events: Seq<Event>) -> Stage
    decreases events.len(),
{
    if events.len() == 0 {
        stage
    } else {
        next_stage(stage_after(stage, events.drop_last()), events.last())
    }
}

/// A run that has ended stays where it is, whatever is reported to it.
pub proof fn lemma_terminal_absorbs(stage: Stage, events: Seq<Event>)
    requires
        stage.terminal(),
    ensures
        stage_after(stage, events) == stage,
    decreases events.len(),
{
    if events.len() > 0 {
        lemma_terminal_absorbs(stage, events.drop_last());
    }
}

/// `Done` is reached from `Start` by six successes and in no shorter way,
/// and a failure anywhere on the way ends the run without reaching it.
pub proof fn lemma_done_needs_every_step(events: Seq<Event>)
    requires
        stage_after(Stage::Start, events) == Stage::Done,
    ensures
        events.len() >= 6,
        forall|i: int| 0 <= i < 6 ==> events[i] == Event::Succeeded,
{
    lemma_stage_rank(events);
    assert forall|i: int| 0 <= i < 6 implies events[i] == Event::Succeeded by {
        lemma_prefix_stage(events, i + 1);
        lemma_prefix_stage(events, i);
        lemma_stage_rank(events.take(i));
        lemma_stage_rank(events.take(i + 1));
        assert(events.take(i + 1).drop_last() =~= events.take(i));
        assert(events.take(i + 1).last() == events[i]);
        if events[i] != Event::Succeeded {
            let before = stage_after(Stage::Start, events.take(i));
            let after = stage_after(Stage::Start, events.take(i + 1));
            assert(after == next_stage(before, events[i]));
            assert(after.terminal());
            lemma_stays_terminal(events, i + 1);
        }
    }
}

/// The number of steps that lie behind a stage on the way to `Done`.
pub open spec fn rank(stage: Stage) -> nat {
    match stage {
        Stage::Start => 0,
        Stage::IdentityResolved => 1,
        Stage::SchemaReady => 2,
        Stage::StoreLocated => 3,
        Stage::Extracted => 4,
        Stage::Loaded => 5,
        Stage::Done => 6,
        Stage::AlreadyImported => 0,
        Stage::Aborted => 0,
    }
}

/// A run never gets further than one stage per event.
proof fn lemma_stage_rank(events: Seq<Event>)
    ensures
        rank(stage_after(Stage::Start, events)) <= events.len(),
        !stage_after(Stage::Start, events).terminal() ==> rank(
            stage_after(Stage::Start, events),
        ) == events.len(),
    decreases events.len(),
{
    if events.len() > 0 {
        lemma_stage_rank(events.drop_last());
    }
}

/// Once a prefix of the events has ended the run, the whole run ends there.
proof fn lemma_stays_terminal(events: Seq<Event>, n: int)
    requires
        0 <= n <= events.len(),
        stage_after(Stage::Start, events.take(n)).terminal(),
    ensures
        stage_after(Stage::Start, events) == stage_after(Stage::Start, events.take(n)),
    decreases events.len() - n,
{
    if n == events.len() {
        assert(events.take(n) =~= events);
    } else {
        assert(events.take(n + 1).drop_last() =~= events.take(n));
        lemma_stays_terminal(events, n + 1);
    }
}

/// Before a run reaches `Done` it has not ended.
proof fn lemma_prefix_stage(events: Seq<Event>, n: int)
    requires
        0 <= n <= events.len(),
        stage_after(Stage::Start, events) == Stage::Done,
    ensures
        n < 6 ==> !stage_after(Stage::Start, events.take(n)).terminal(),
{
    if n < 6 && stage_after(Stage::Start, events.take(n)).terminal() {
        lemma_stays_terminal(events, n);
        lemma_stage_rank(events.take(n));
    }
}

/// What the peer says of itself.
#[derive(Clone, Copy, Debug, PartialEq, Eq, Structural)]
pub struct PeerInfo {
    pub is_synced: bool,
    pub network_id: NetworkIdentity,
}

/// The identity that a run works with, once the configuration has been
/// resolved and the peer found synced and on the same network.
pub open spec fn peer_checked(
    network_type: Option<NetworkType>,
    suffix: Option<u32>,
    peer: PeerInfo,
) -> Result<NetworkIdentity, ImportError> {
    match identity_of(network_type, suffix) {
        Err(e) => Err(e),
        Ok(identity) => if !peer.is_synced {
            Err(ImportError::NotSynced)
        } else {
            match reconciled(identity, peer.network_id) {
                Err(e) => Err(e),
                Ok(_) => Ok(identity),
            }
        },
    }
}

/// Resolves the configured identity and holds the peer against it.
pub fn check_peer(network_type: &str, suffix: Option<u32>, peer: PeerInfo) -> (r: Result<
    NetworkIdentity,
    ImportError,
>)
    ensures
        r == peer_checked(network_type_named(network_type@), suffix, peer),
        network_type@ == "mainnet"@ ==> r == peer_checked(Some(NetworkType::Mainnet), suffix, peer),
        network_type@ == "testnet"@ ==> r == peer_checked(Some(NetworkType::Testnet), suffix, peer),
        network_type@ == "devnet"@ ==> r == peer_checked(Some(NetworkType::Devnet), suffix, peer),
        network_type@ == "simnet"@ ==> r == peer_checked(Some(NetworkType::Simnet), suffix, peer),
{
    let identity = match resolve(network_type, suffix) {
        Ok(identity) => identity,
        Err(e) => {
            return Err(e);
        },
    };
    if !peer.is_synced {
        return Err(ImportError::NotSynced);
    }
    match reconcile(identity, peer.network_id) {
        Ok(_) => Ok(identity),
        Err(e) => Err(e),
    }
}

/// Everything a run needs, read before it starts.
#[derive(Debug)]
pub struct ImportRequest {
    /// The configured network type, as written.
    pub network_type: String,
    /// The configured network suffix.
    pub suffix: Option<u32>,
    /// What the peer reported of itself.
    pub peer: PeerInfo,
    /// How preparing the schema of the target ended.
    pub schema: Result<(), ImportError>,
    /// The node's application directory.
    pub app_dir: String,
    /// What the generation pointer file holds; `None` if it is not there.
    pub marker: Option<String>,
    /// Whether the directory of the live generation is there.
    pub directory_exists: bool,
    /// The records of the pruning-point UTXO set, in store order.
    pub records: Vec<RawRecord>,
    /// The time to stamp the import with.
    pub imported_at: u64,
    /// The number of rows to stage at a time.
    pub batch_size: usize,
}

/// A request as a mathematical value, with the network type it names.
pub struct RunInputs {
    pub network_type: Option<NetworkType>,
    pub suffix: Option<u32>,
    pub peer: PeerInfo,
    pub schema: Result<(), ImportError>,
    pub app_dir: Seq<char>,
    pub marker: Option<Seq<char>>,
    pub directory_exists: bool,
    pub source: Seq<RawModel>,
    pub imported_at: u64,
    pub batch_size: nat,
}

impl View for ImportRequest {
    type V = RunInputs;

    open spec fn view(&self) -> RunInputs {
        RunInputs {
            network_type: network_type_named(self.network_type@),
            suffix: self.suffix,
            peer: self.peer,
            schema: self.schema,
            app_dir: self.app_dir@,
            marker: match self.marker {
                Some(text) => Some(text@),
                None => None,
            },
            directory_exists: self.directory_exists,
            source: raw_models(self.records@),
            imported_at: self.imported_at,
            batch_size: self.batch_size as nat,
        }
    }
}

/// How a run ended.
#[derive(Clone, Copy, Debug, PartialEq, Eq, Structural)]
pub struct ImportReport {
    /// The terminal stage that the run reached.
    pub stage: Stage,
    /// The failure that ended the run, if one did.
    pub error: Option<ImportError>,
    /// The number of rows that the run published.
    pub rows_loaded: usize,
}

/// A target before a run: what readers see, whether another import is in
/// progress, and how many rows there is room for.
pub struct TargetState {
    pub visible: StoreModel,
    pub staging: bool,
    pub row_limit: nat,
}

/// A freshly opened extractor over a store.
pub open spec fn opened(source: Seq<RawModel>) -> ExtractorModel {
    ExtractorModel {
        source,
        position: 0,
        state: if source.len() == 0 {
            ExtractorState::Exhausted
        } else {
            ExtractorState::Reading
        },
    }
}

/// The outcome of the steps that come before the load: the identity to
/// import, `None` if the target is seeded already, or the failure.
pub open spec fn prepared(target: TargetState, inputs: RunInputs) -> Result<
    Option<NetworkIdentity>,
    ImportError,
> {
    match peer_checked(inputs.network_type, inputs.suffix, inputs.peer) {
        Err(e) => Err(e),
        Ok(identity) => match inputs.schema {
            Err(e) => Err(e),
            Ok(_) => if target.visible.meta is Some {
                Ok(None)
            } else {
                match located(inputs.app_dir, identity, inputs.marker) {
                    Err(e) => Err(e),
                    Ok(_) => if inputs.directory_exists {
                        Ok(Some(identity))
                    } else {
                        Err(ImportError::StoreNotFound)
                    },
                }
            },
        },
    }
}

/// How the load of a run ends, where the run gets that far.
pub open spec fn run_load(target: TargetState, inputs: RunInputs) -> Result<nat, ImportError> {
    load_outcome(
        target.visible.meta,
        target.staging,
        target.row_limit,
        opened(inputs.source),
        inputs.batch_size,
    )
}

/// The stage in which a failure ends a run.
pub open spec fn ended_by(e: ImportError) -> Stage {
    next_stage(Stage::Start, Event::Failed(e))
}

/// The stage in which a run ends.
pub open spec fn run_stage(target: TargetState, inputs: RunInputs) -> Stage {
    match prepared(target, inputs) {
        Err(e) => ended_by(e),
        Ok(None) => Stage::AlreadyImported,
        Ok(Some(_)) => match run_load(target, inputs) {
            Ok(_) => Stage::Done,
            Err(e) => ended_by(e),
        },
    }
}

/// The failure that ends a run, if one does.
pub open spec fn run_error(target: TargetState, inputs: RunInputs) -> Option<ImportError> {
    match prepared(target, inputs) {
        Err(e) => Some(e),
        Ok(None) => None,
        Ok(Some(_)) => match run_load(target, inputs) {
            Ok(_) => None,
            Err(e) => Some(e),
        },
    }
}

/// The number of rows that a run publishes.
pub open spec fn run_rows(target: TargetState, inputs: RunInputs) -> nat {
    if run_stage(target, inputs) == Stage::Done {
        run_load(target, inputs)->Ok_0
    } else {
        0
    }
}

/// What readers of the target see after a run: the whole extracted set and
/// its stamp if the run ended in `Done`, and otherwise what they saw before.
pub open spec fn run_store(target: TargetState, inputs: RunInputs) -> StoreModel {
    if run_stage(target, inputs) == Stage::Done {
        StoreModel {
            rows: extracted(inputs.source)->0,
            meta: Some(
                MetaRecord::stamped(prepared(target, inputs)->Ok_0->0, inputs.imported_at),
            ),
        }
    } else {
        target.visible
    }
}

/// What a newly opened extractor has to yield is the whole extracted set.
pub proof fn lemma_opened_remaining(source: Seq<RawModel>)
    ensures
        opened(source).remaining() == extracted(source),
{
    if source.len() == 0 {
        assert(extracted(source)->0 =~= Seq::empty());
    }
}

/// A run ends in `Done` only if the whole store could be read; the target
/// then holds one row for each record of the store, no outpoint twice, and
/// the metadata row.
pub proof fn lemma_done_imports_everything(target: TargetState, inputs: RunInputs)
    requires
        run_stage(target, inputs) == Stage::Done,
    ensures
        extracted(inputs.source) is Some,
        run_store(target, inputs).rows.len() == inputs.source.len(),
        run_rows(target, inputs) == inputs.source.len(),
        crate::utxo::distinct_outpoints(run_store(target, inputs).rows),
        run_store(target, inputs).meta is Some,
        target.visible.meta is None,
{
    lemma_opened_remaining(inputs.source);
    lemma_load_succeeds(
        target.visible.meta,
        target.staging,
        target.row_limit,
        opened(inputs.source),
        inputs.batch_size,
    );
    crate::extractor::lemma_extracted_is_distinct(inputs.source);
}

/// Running twice is running once: a second run on the same inputs leaves
/// the target as the first run left it and publishes no row.
pub proof fn lemma_run_is_idempotent(target: TargetState, inputs: RunInputs)
    ensures
        ({
            let once = run_store(target, inputs);
            let then = TargetState {
                visible: once,
                staging: target.staging,
                row_limit: target.row_limit,
            };
            &&& run_store(then, inputs) == once
            &&& run_stage(then, inputs) != Stage::Done || run_stage(target, inputs) != Stage::Done
            &&& run_stage(target, inputs) == Stage::Done ==> run_stage(then, inputs)
                == Stage::AlreadyImported && run_rows(then, inputs) == 0
        }),
{
    let once = run_store(target, inputs);
    let then = TargetState { visible: once, staging: target.staging, row_limit: target.row_limit };
    if run_stage(target, inputs) != Stage::Done {
        assert(then.visible == target.visible);
        assert(then == target);
    }
}

/// A run against a peer that is not synced aborts and leaves the target as
/// it was.
pub proof fn lemma_unsynced_peer_aborts(target: TargetState, inputs: RunInputs)
    requires
        !inputs.peer.is_synced,
    ensures
        run_stage(target, inputs) == Stage::Aborted,
        run_store(target, inputs) == target.visible,
        identity_of(inputs.network_type, inputs.suffix) is Ok ==> run_error(target, inputs) == Some(
            ImportError::NotSynced,
        ),
{
}

/// A run on a target that carries a metadata row publishes nothing,
/// whatever the store holds.
pub proof fn lemma_seeded_target_is_kept(target: TargetState, inputs: RunInputs)
    requires
        target.visible.meta is Some,
    ensures
        run_store(target, inputs) == target.visible,
        run_stage(target, inputs) != Stage::Done,
        prepared(target, inputs) is Ok ==> run_stage(target, inputs) == Stage::AlreadyImported,
{
}

/// Runs the import on inputs that have been read already.
pub fn run_import(store: &mut TargetStore, request: ImportRequest) -> (r: ImportReport)
    requires
        old(store).wf(),
    ensures
        final(store).wf(),
        final(store).row_limit() == old(store).row_limit(),
        final(store).staged() == old(store).staged(),
        ({
            let target = TargetState {
                visible: old(store)@,
                staging: old(store).staged() is Some,
                row_limit: old(store).row_limit(),
            };
            &&& r.stage == run_stage(target, request@)
            &&& r.error == run_error(target, request@)
            &&& r.rows_loaded == run_rows(target, request@)
            &&& final(store)@ == run_store(target, request@)
        }),
{
    let ghost target = TargetState {
        visible: store@,
        staging: store.staged() is Some,
        row_limit: store.row_limit(),
    };
    let ghost inputs = request@;
    let stage = Stage::Start;
    let identity = match check_peer(request.network_type.as_str(), request.suffix, request.peer) {
        Ok(identity) => identity,
        Err(e) => {
            return ImportReport {
                stage: advance(stage, Event::Failed(e)),
                error: Some(e),
                rows_loaded: 0,
            };
        },
    };
    let stage = advance(stage, Event::Succeeded);
    match request.schema {
        Ok(_) => {},
        Err(e) => {
            return ImportReport {
                stage: advance(stage, Event::Failed(e)),
                error: Some(e),
                rows_loaded: 0,
            };
        },
    }
    let stage = advance(stage, Event::Succeeded);
    if store.get_meta().is_some() {
        return ImportReport {
            stage: advance(stage, Event::AlreadySeeded),
            error: None,
            rows_loaded: 0,
        };
    }
    let marker: Option<&str> = match &request.marker {
        Some(text) => Some(text.as_str()),
        None => None,
    };
    let location = match locate(request.app_dir.as_str(), identity, marker) {
        Ok(location) => location.confirm(request.directory_exists),
        Err(e) => Err(e),
    };
    match location {
        Ok(_) => {},
        Err(e) => {
            return ImportReport {
                stage: advance(stage, Event::Failed(e)),
                error: Some(e),
                rows_loaded: 0,
            };
        },
    }
    let stage = advance(stage, Event::Succeeded);
    let mut extractor = extract(request.records);
    let stage = advance(stage, Event::Succeeded);
    proof {
        store.lemma_wf();
        lemma_opened_remaining(inputs.source);
        assert(extractor@ == opened(inputs.source));
        lemma_load_succeeds(
            target.visible.meta,
            target.staging,
            target.row_limit,
            opened(inputs.source),
            inputs.batch_size,
        );
    }
    match load(store, &mut extractor, identity, request.imported_at, request.batch_size) {
        Ok(rows_loaded) => {
            let stage = advance(stage, Event::Succeeded);
            ImportReport { stage: advance(stage, Event::Succeeded), error: None, rows_loaded }
        },
        Err(e) => ImportReport {
            stage: advance(stage, Event::Failed(e)),
            error: Some(e),
            rows_loaded: 0,
        },
    }
}

} // verus!
