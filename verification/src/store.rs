//! Content-addressed receipt store: insert-once, fetch-many, never updated
//! or deleted. Identifier uniqueness is the store's invariant, enforced by an
//! atomic insert-if-absent; a process-generated identifier is checked against
//! the store like any other, never assumed fresh.

use vstd::prelude::*;
use crate::circuits::CircuitId;
use crate::errors::NodeError;

verus! {

/// Self-contained proof artifact: opaque proof bytes, the public journal
/// committed by the computation, and the circuit identity it was produced
/// for. Immutable once created.
#[derive(Debug)]
pub struct Receipt {
    pub proof_bytes: Vec<u8>,
    pub journal: Vec<u8>,
    pub circuit: CircuitId,
}

/// Mathematical image of a receipt.
#[verifier::ext_equal]
pub struct ReceiptView {
    pub proof_bytes: Seq<u8>,
    pub journal: Seq<u8>,
    pub circuit: Seq<u32>,
}

impl View for Receipt {
    type V = ReceiptView;

    open spec fn view(&self) -> ReceiptView {
        ReceiptView {
            proof_bytes: self.proof_bytes@,
            journal: self.journal@,
            circuit: self.circuit@,
        }
    }
}

/// Byte-for-byte copy of a byte vector.
pub fn copy_bytes(src: &Vec<u8>) -> (r: Vec<u8>)
    ensures
        r@ == src@,
{
    let mut out: Vec<u8> = Vec::new();
    let mut i: usize = 0;
    while i < src.len()
        invariant
            i <= src@.len(),
            out@ == src@.subrange(0, i as int),
        decreases src@.len() - i,
    {
        out.push(src[i]);
        assert(out@ =~= src@.subrange(0, i + 1 as int));
        i += 1;
    }
    assert(out@ =~= src@);
    out
}

impl Receipt {
    /// An identical copy.
    pub fn duplicate(&self) -> (r: Receipt)
        ensures
            r@ == self@,
    {
        Receipt {
            proof_bytes: copy_bytes(&self.proof_bytes),
            journal: copy_bytes(&self.journal),
            circuit: CircuitId { words: self.circuit.words },
        }
    }
}

/// A stored `(identifier, receipt)` pair.
pub struct ReceiptRecord {
    pub id: String,
    pub receipt: Receipt,
}

/// Durable, content-addressed persistence for proof receipts, keyed by an
/// opaque identifier. The store performs no verification itself; that is
/// the caller's gate.
pub struct ReceiptStore {
    records: Vec<ReceiptRecord>,
}

impl ReceiptStore {
    /// No two stored records share an identifier.
    #[verifier::type_invariant]
    closed spec fn wf(self) -> bool {
        forall|i: int, j: int|
            0 <= i < j < self.records@.len() ==> self.records@[i].id@ != self.records@[j].id@
    }

    closed spec fn spec_has(self, id: Seq<char>) -> bool {
        exists|i: int| 0 <= i < self.records@.len() && self.records@[i].id@ == id
    }

    closed spec fn spec_idx(self, id: Seq<char>) -> int {
        choose|i: int| 0 <= i < self.records@.len() && self.records@[i].id@ == id
    }
}

impl View for ReceiptStore {
    type V = Map<Seq<char>, ReceiptView>;

    closed spec fn view(&self) -> Map<Seq<char>, ReceiptView> {
        Map::new(
            |id: Seq<char>| self.spec_has(id),
            |id: Seq<char>| self.records@[self.spec_idx(id)].receipt@,
        )
    }
}

impl ReceiptStore {
    /// An empty store.
    pub fn new() -> (r: ReceiptStore)
        ensures
            r@ == Map::<Seq<char>, ReceiptView>::empty(),
    {
        let r = ReceiptStore { records: Vec::new() };
        proof {
            assert(r@ =~= Map::<Seq<char>, ReceiptView>::empty());
        }
        r
    }

    /// Whether a record is stored under `id`.
    pub fn contains(&self, id: &String) -> (r: bool)
        ensures
            r == self@.dom().contains(id@),
    {
        let mut i: usize = 0;
        while i < self.records.len()
            invariant
                i <= self.records@.len(),
                forall|j: int| 0 <= j < i ==> self.records@[j].id@ != id@,
            decreases self.records@.len() - i,
        {
            if self.records[i].id == *id {
                assert(self.spec_has(id@));
                return true;
            }
            i += 1;
        }
        assert(!self.spec_has(id@));
        false
    }

    /// Fetch the receipt stored under `id`; fails with `NotFound` exactly
    /// when no record carries `id`.
    pub fn fetch(&self, id: &String) -> (r: Result<&Receipt, NodeError>)
        ensures
            self@.dom().contains(id@) ==> (r matches Ok(rec) && rec@ == self@[id@]),
            !self@.dom().contains(id@) ==> (r matches Err(e) && e == NodeError::NotFound),
    {
        let mut i: usize = 0;
        while i < self.records.len()
            invariant
                i <= self.records@.len(),
                forall|j: int| 0 <= j < i ==> self.records@[j].id@ != id@,
            decreases self.records@.len() - i,
        {
            if self.records[i].id == *id {
                proof {
                    use_type_invariant(&*self);
                    assert(self.spec_has(id@));
                    let w = self.spec_idx(id@);
                    assert(0 <= w < self.records@.len() && self.records@[w].id@ == id@);
                    assert(w == i);
                }
                return Ok(&self.records[i].receipt);
            }
            i += 1;
        }
        assert(!self.spec_has(id@));
        Err(NodeError::NotFound)
    }

    /// Atomic insert-if-absent: persist `receipt` under `id`, failing with
    /// `Conflict` exactly when `id` is already used, in which case the
    /// store's prior content is unchanged.
    pub fn insert_with_id(&mut self, id: String, receipt: Receipt) -> (r: Result<(), NodeError>)
        ensures
            old(self)@.dom().contains(id@) ==> (r matches Err(e) && e == NodeError::Conflict
                && final(self)@ == old(self)@),
            !old(self)@.dom().contains(id@) ==> (r matches Ok(()) && final(self)@ == old(
                self,
            )@.insert(id@, receipt@)),
    {
        let ghost pre = *self;
        proof {
            use_type_invariant(&*self);
        }
        if self.contains(&id) {
            return Err(NodeError::Conflict);
        }
        let ghost idv = id@;
        let ghost recv = receipt@;
        let mut records: Vec<ReceiptRecord> = Vec::new();
        core::mem::swap(&mut records, &mut self.records);
        records.push(ReceiptRecord { id, receipt });
        proof {
            assert(records@.len() == pre.records@.len() + 1);
            assert(records@[records@.len() - 1].id@ == idv);
            assert(records@[records@.len() - 1].receipt@ == recv);
            assert forall|a: int, b: int| 0 <= a < b < records@.len() implies records@[a].id@
                != records@[b].id@ by {
                if b < records@.len() - 1 {
                    assert(records@[a] == pre.records@[a]);
                    assert(records@[b] == pre.records@[b]);
                } else {
                    assert(records@[a] == pre.records@[a]);
                    assert(!pre.spec_has(idv));
                    assert(records@[b].id@ == idv);
                }
            }
        }
        self.records = records;
        proof {
            let n = pre.records@.len() as int;
            assert forall|k: Seq<char>| #[trigger] self.spec_has(k) implies pre.spec_has(k) || k
                == idv by {
                let w = choose|i: int|
                    0 <= i < self.records@.len() && self.records@[i].id@ == k;
                if w < n {
                    assert(pre.records@[w].id@ == k);
                } else {
                    assert(self.records@[w].id@ == idv);
                }
            }
            assert forall|k: Seq<char>| pre.spec_has(k) implies #[trigger] self.spec_has(k) by {
                let w = choose|i: int| 0 <= i < pre.records@.len() && pre.records@[i].id@ == k;
                assert(self.records@[w].id@ == k);
            }
            assert(self.spec_has(idv)) by {
                assert(self.records@[n].id@ == idv);
            }
            assert forall|k: Seq<char>| #[trigger] self.spec_has(k) && k != idv implies self@[k]
                == pre@[k] by {
                let w = self.spec_idx(k);
                assert(0 <= w < self.records@.len() && self.records@[w].id@ == k);
                assert(w != n);
                assert(pre.records@[w].id@ == k);
                assert(pre.spec_has(k));
                let v = pre.spec_idx(k);
                assert(0 <= v < pre.records@.len() && pre.records@[v].id@ == k);
                assert(v == w);
            }
            assert(self@[idv] == recv) by {
                let w = self.spec_idx(idv);
                assert(0 <= w < self.records@.len() && self.records@[w].id@ == idv);
                assert(w == n);
            }
            assert(self@ =~= pre@.insert(idv, recv));
        }
        Ok(())
    }

    /// Persist `receipt` under a process-generated identifier. The fresh
    /// identifier is inserted through the same atomic insert-if-absent, so a
    /// successful insert proves the identifier was unused; in the vanishing
    /// case that the generated identifier collides, the store is unchanged
    /// and the conflict is reported rather than retried. On a store none of
    /// whose identifiers is 36 characters long — in particular an empty
    /// store — no collision is possible and success is owed.
    pub fn insert_new(&mut self, receipt: Receipt) -> (r: Result<String, NodeError>)
        ensures
            r matches Ok(id) ==> !old(self)@.dom().contains(id@) && final(self)@ == old(
                self,
            )@.insert(id@, receipt@),
            r matches Err(e) ==> e == NodeError::Conflict && final(self)@ == old(self)@,
            (forall|k: Seq<char>| old(self)@.dom().contains(k) ==> k.len() != 36) ==> r is Ok,
    {
        let id = fresh_id();
        match self.insert_with_id(id.clone(), receipt) {
            Ok(()) => Ok(id),
            Err(e) => {
                proof {
                    // a conflict means the drawn 36-character identifier was
                    // already stored
                    assert(old(self)@.dom().contains(id@));
                }
                Err(e)
            },
        }
    }

    /// Persist a receipt under the supplied identifier, or under a fresh
    /// process-generated one when none is supplied. A supplied identifier
    /// that is already used fails with `Conflict` and changes nothing.
    pub fn insert(&mut self, receipt: Receipt, id: Option<String>) -> (r: Result<
        String,
        NodeError,
    >)
        ensures
            id matches Some(chosen) ==> {
                &&& old(self)@.dom().contains(chosen@) ==> (r matches Err(e) && e
                    == NodeError::Conflict && final(self)@ == old(self)@)
                &&& !old(self)@.dom().contains(chosen@) ==> (r matches Ok(rid) && rid@ == chosen@
                    && final(self)@ == old(self)@.insert(chosen@, receipt@))
            },
            id is None ==> {
                &&& r matches Ok(rid) ==> !old(self)@.dom().contains(rid@) && final(self)@ == old(
                    self,
                )@.insert(rid@, receipt@)
                &&& r matches Err(e) ==> e == NodeError::Conflict && final(self)@ == old(self)@
                &&& (forall|k: Seq<char>| old(self)@.dom().contains(k) ==> k.len() != 36) ==> r
                    is Ok
            },
    {
        match id {
            Some(chosen) => match self.insert_with_id(chosen.clone(), receipt) {
                Ok(()) => Ok(chosen),
                Err(e) => Err(e),
            },
            None => self.insert_new(receipt),
        }
    }
}

/// Relies on `uuid::Uuid::new_v4` and the `Display` form of `uuid::Uuid`:
/// a freshly drawn random version-4 identifier, rendered hyphenated as
/// 36 characters. The draw is random, so nothing links two calls; freshness
/// against the store is established by the insert, never assumed here.
#[verifier::external_body]
fn fresh_id() -> (r: String)
    ensures
        r@.len() == 36,
{
    uuid::Uuid::new_v4().to_string()
}

/// Round trip: once an insert of `r` under `id` has succeeded, the store
/// maps `id` to exactly `r`, which is what a fetch of `id` returns.
pub proof fn lemma_insert_fetch_round_trip(
    before: Map<Seq<char>, ReceiptView>,
    id: Seq<char>,
    r: ReceiptView,
)
    ensures
        before.insert(id, r).dom().contains(id),
        before.insert(id, r)[id] == r,
{
}

/// Distinct generated identifiers: when two inserts under generated
/// identifiers both succeed, one after the other, the identifiers differ,
/// because the second was absent from a store that already held the first.
pub proof fn lemma_generated_ids_distinct(
    before: Map<Seq<char>, ReceiptView>,
    id1: Seq<char>,
    r1: ReceiptView,
    id2: Seq<char>,
)
    requires
        !before.dom().contains(id1),
        !before.insert(id1, r1).dom().contains(id2),
    ensures
        id1 != id2,
{
}

} // verus!
