use vstd::prelude::*;

verus! {

/// Names one output of one transaction.
#[derive(Clone, Copy, Debug, PartialEq, Eq)]
pub struct Outpoint {
    pub transaction_id: [u8; 32],
    pub index: u32,
}

/// The spending condition of an output.
#[derive(Clone, Debug, PartialEq, Eq)]
pub struct ScriptPublicKey {
    pub version: u16,
    pub script: Vec<u8>,
}

/// One unspent output as it stood at the pruning point.
#[derive(Clone, Debug, PartialEq, Eq)]
pub struct UtxoEntry {
    pub outpoint: Outpoint,
    pub amount: u64,
    pub script_public_key: ScriptPublicKey,
    pub block_daa_score: u64,
    pub is_coinbase: bool,
}

/// An outpoint as a mathematical value.
pub struct OutpointModel {
    pub transaction_id: Seq<u8>,
    pub index: u32,
}

/// An entry as a mathematical value; this is also what a row of the
/// relational table holds.
pub struct UtxoModel {
    pub outpoint: OutpointModel,
    pub amount: u64,
    pub script_version: u16,
    pub script: Seq<u8>,
    pub block_daa_score: u64,
    pub is_coinbase: bool,
}

impl View for Outpoint {
    type V = OutpointModel;

    open spec fn view(&self) -> OutpointModel {
        OutpointModel { transaction_id: self.transaction_id@, index: self.index }
    }
}

impl View for UtxoEntry {
    type V = UtxoModel;

    open spec fn view(&self) -> UtxoModel {
        UtxoModel {
            outpoint: self.outpoint@,
            amount: self.amount,
            script_version: self.script_public_key.version,
            script: self.script_public_key.script@,
            block_daa_score: self.block_daa_score,
            is_coinbase: self.is_coinbase,
        }
    }
}

/// The entries of a vector as mathematical values, in order.
pub open spec fn models(entries: Seq<UtxoEntry>) -> Seq<UtxoModel> {
    entries.map_values(|e: UtxoEntry| e@)
}

/// No two rows share an outpoint.
pub open spec fn distinct_outpoints(rows: Seq<UtxoModel>) -> bool {
    forall|i: int, j: int|
        0 <= i < j < rows.len() ==> (#[trigger] rows[i]).outpoint != (#[trigger] rows[j]).outpoint
}

/// Whether some row carries the outpoint.
pub open spec fn holds_outpoint(rows: Seq<UtxoModel>, outpoint: OutpointModel) -> bool {
    exists|i: int| 0 <= i < rows.len() && (#[trigger] rows[i]).outpoint == outpoint
}

/// `a` and `b` agree before position `i` and `a` is smaller there.
pub open spec fn smaller_at(a: Seq<u8>, b: Seq<u8>, i: int) -> bool {
    &&& 0 <= i < a.len()
    &&& i < b.len()
    &&& a[i] < b[i]
    &&& forall|k: int| 0 <= k < i ==> a[k] == b[k]
}

/// Byte strings of one length in dictionary order.
pub open spec fn bytes_before(a: Seq<u8>, b: Seq<u8>) -> bool {
    exists|i: int| smaller_at(a, b, i)
}

/// The order in which a consensus store keeps its outpoints: by transaction
/// id, then by index.
pub open spec fn outpoint_before(a: OutpointModel, b: OutpointModel) -> bool {
    bytes_before(a.transaction_id, b.transaction_id) || (a.transaction_id == b.transaction_id
        && a.index < b.index)
}

/// Each entry comes strictly after the one before it.
pub open spec fn ascending(rows: Seq<UtxoModel>) -> bool {
    forall|i: int|
        0 <= i < rows.len() - 1 ==> outpoint_before(
            (#[trigger] rows[i]).outpoint,
            rows[i + 1].outpoint,
        )
}

/// Nothing comes before itself.
pub proof fn lemma_before_irreflexive(a: OutpointModel)
    ensures
        !outpoint_before(a, a),
{
}

/// The order carries over a middle element.
pub proof fn lemma_bytes_before_transitive(a: Seq<u8>, b: Seq<u8>, c: Seq<u8>)
    requires
        bytes_before(a, b),
        bytes_before(b, c),
    ensures
        bytes_before(a, c),
{
    let i = choose|i: int| smaller_at(a, b, i);
    let j = choose|j: int| smaller_at(b, c, j);
    if i <= j {
        assert(smaller_at(a, c, i));
    } else {
        assert(smaller_at(a, c, j));
    }
}

/// The order on outpoints carries over a middle element.
pub proof fn lemma_before_transitive(a: OutpointModel, b: OutpointModel, c: OutpointModel)
    requires
        outpoint_before(a, b),
        outpoint_before(b, c),
    ensures
        outpoint_before(a, c),
{
    if bytes_before(a.transaction_id, b.transaction_id) && bytes_before(
        b.transaction_id,
        c.transaction_id,
    ) {
        lemma_bytes_before_transitive(a.transaction_id, b.transaction_id, c.transaction_id);
    }
}

/// In an ascending sequence an earlier entry comes before every later one.
pub proof fn lemma_ascending_pairs(rows: Seq<UtxoModel>, i: int, j: int)
    requires
        ascending(rows),
        0 <= i < j < rows.len(),
    ensures
        outpoint_before(rows[i].outpoint, rows[j].outpoint),
    decreases j - i,
{
    if j > i + 1 {
        lemma_ascending_pairs(rows, i, j - 1);
        assert(outpoint_before(rows[j - 1].outpoint, rows[j - 1 + 1].outpoint));
        lemma_before_transitive(rows[i].outpoint, rows[j - 1].outpoint, rows[j].outpoint);
    }
}

/// An ascending sequence holds no outpoint twice.
pub proof fn lemma_ascending_is_distinct(rows: Seq<UtxoModel>)
    requires
        ascending(rows),
    ensures
        distinct_outpoints(rows),
{
    assert forall|i: int, j: int| 0 <= i < j < rows.len() implies (#[trigger] rows[i]).outpoint != (
    #[trigger] rows[j]).outpoint by {
        lemma_ascending_pairs(rows, i, j);
        lemma_before_irreflexive(rows[i].outpoint);
    }
}

impl Outpoint {
    /// Whether two outpoints name the same output.
    pub fn same_as(&self, other: &Outpoint) -> (r: bool)
        ensures
            r == (self@ == other@),
    {
        if self.index != other.index {
            return false;
        }
        let mut i: usize = 0;
        while i < 32
            invariant
                i <= 32,
                forall|k: int| 0 <= k < i ==> self.transaction_id@[k] == other.transaction_id@[k],
            decreases 32 - i,
        {
            if self.transaction_id[i] != other.transaction_id[i] {
                assert(self.transaction_id@[i as int] != other.transaction_id@[i as int]);
                return false;
            }
            i = i + 1;
        }
        assert(self.transaction_id@ =~= other.transaction_id@);
        true
    }

    /// Whether this outpoint comes strictly before the other in store order.
    pub fn before(&self, other: &Outpoint) -> (r: bool)
        ensures
            r == outpoint_before(self@, other@),
    {
        let mut i: usize = 0;
        while i < 32
            invariant
                i <= 32,
                forall|k: int| 0 <= k < i ==> self.transaction_id@[k] == other.transaction_id@[k],
            decreases 32 - i,
        {
            let x: u8 = self.transaction_id[i];
            let y: u8 = other.transaction_id[i];
            if x < y {
                assert(smaller_at(self.transaction_id@, other.transaction_id@, i as int));
                return true;
            }
            if x > y {
                assert(self.transaction_id@[i as int] != other.transaction_id@[i as int]);
                assert forall|j: int| !smaller_at(
                    self.transaction_id@,
                    other.transaction_id@,
                    j,
                ) by {
                    if smaller_at(self.transaction_id@, other.transaction_id@, j) {
                        if j > i {
                            assert(self.transaction_id@[i as int] == other.transaction_id@[i as int]);
                        }
                    }
                }
                return false;
            }
            i = i + 1;
        }
        assert(self.transaction_id@ =~= other.transaction_id@);
        assert(!bytes_before(self.transaction_id@, other.transaction_id@));
        self.index < other.index
    }
}

} // verus!
