//! Node service: the orchestration root over the store, the registry, the
//! circuit model and the gateways. The prover and verifier capabilities are
//! external; their verdicts enter as plain values, and every decision gated
//! on them — what is stored, what is rejected, what is broadcast — is taken
//! here and verified.

use vstd::prelude::*;
use vstd::string::StringExecFns;
use crate::circuits::{CircuitInputs, spec_circuit_id};
use crate::errors::NodeError;
use crate::registry::{
    PeerNode, PeerNodeView, PeerRegistry, RegisterOutcome, contains_peer,
};
use crate::store::{Receipt, ReceiptStore, ReceiptView};

verus! {

/// Ephemeral health-probe answer; never persisted.
pub struct NodeStatus {
    pub status: String,
    pub timestamp: i64,
}

impl NodeStatus {
    /// The answer of a health probe taken at `now`: always online.
    pub fn online_at(now: i64) -> (r: NodeStatus)
        ensures
            r.status@ == "online"@,
            r.timestamp == now,
    {
        NodeStatus { status: String::from_str("online"), timestamp: now }
    }
}

/// The propagation message: the identifier a receipt is stored under, the
/// claimed computation kind, and the receipt itself. Broadcast to every
/// peer after a local compute, and accepted from peers only through the
/// verification gate.
pub struct IncomingReceipt {
    pub uuid: String,
    pub circuit: CircuitInputs,
    pub receipt: Receipt,
}

/// Relies on `chrono::Utc::now` and `chrono::DateTime::timestamp`: the
/// current wall-clock time in whole seconds since the epoch. The clock is
/// outside the library; nothing relates two readings.
#[verifier::external_body]
fn now_unix() -> (r: i64) {
    chrono::Utc::now().timestamp()
}

/// Orchestration root composing the store and the registry into the node's
/// operations. Constructed once at startup and owned for the life of the
/// process; no global state stands behind it.
pub struct NodeService {
    pub store: ReceiptStore,
    pub registry: PeerRegistry,
}

impl NodeService {
    /// A node with an empty store and no known peers.
    pub fn new() -> (r: NodeService)
        ensures
            r.store@ == Map::<Seq<char>, ReceiptView>::empty(),
            r.registry@ == Seq::<PeerNodeView>::empty(),
    {
        NodeService { store: ReceiptStore::new(), registry: PeerRegistry::new() }
    }

    /// Health probe: always online, stamped with the current clock reading;
    /// no side effect.
    pub fn ping(&self) -> (r: NodeStatus)
        ensures
            r.status@ == "online"@,
    {
        NodeStatus::online_at(now_unix())
    }

    /// Register a peer; a duplicate identity is a conflict, not an update.
    pub fn register_peer(&mut self, address: String, port: u16) -> (r: RegisterOutcome)
        ensures
            r == RegisterOutcome::Created <==> !contains_peer(
                old(self).registry@,
                address@,
                port,
            ),
            r == RegisterOutcome::Created ==> final(self).registry@ == old(self).registry@.push(
                PeerNodeView { address: address@, port, last_ping_at: None },
            ),
            r == RegisterOutcome::Conflict ==> final(self).registry@ == old(self).registry@,
            final(self).store@ == old(self).store@,
    {
        self.registry.register(address, port)
    }

    /// A point-in-time snapshot of the known peers.
    pub fn list_peers(&self) -> (r: Vec<PeerNode>)
        ensures
            r@.map_values(|p: PeerNode| p@) == self.registry@,
    {
        self.registry.list()
    }

    /// Fetch a stored receipt; fails with `NotFound` exactly when nothing
    /// is stored under `id`.
    pub fn fetch_receipt(&self, id: &String) -> (r: Result<&Receipt, NodeError>)
        ensures
            self.store@.dom().contains(id@) ==> (r matches Ok(rec) && rec@ == self.store@[id@]),
            !self.store@.dom().contains(id@) ==> (r matches Err(e) && e == NodeError::NotFound),
    {
        self.store.fetch(id)
    }

    /// Accept a locally computed receipt: the circuit execution gateway's
    /// decision once the external prover has answered. The transport calls
    /// the verifier capability with the identity resolved from `inputs` and
    /// hands the verdict in as `self_verified`. A receipt that failed
    /// self-verification, or that does not carry the identity resolved from
    /// its own inputs, is never stored — and so never broadcast. On success
    /// the receipt is stored under a fresh process-generated identifier,
    /// through the store's atomic insert-if-absent; on a store holding no
    /// 36-character identifier — a fresh node above all — that insert is
    /// owed to succeed.
    pub fn accept_computed(
        &mut self,
        inputs: &CircuitInputs,
        receipt: Receipt,
        self_verified: bool,
    ) -> (r: Result<String, NodeError>)
        ensures
            final(self).registry@ == old(self).registry@,
            (!self_verified || receipt@.circuit != spec_circuit_id(*inputs)) ==> (r matches Err(e)
                && e == NodeError::Verification && final(self).store@ == old(self).store@),
            (self_verified && receipt@.circuit == spec_circuit_id(*inputs)) ==> {
                &&& r matches Ok(id) ==> (!old(self).store@.dom().contains(id@)
                    && final(self).store@ == old(self).store@.insert(id@, receipt@))
                &&& r matches Err(e) ==> (e == NodeError::Conflict
                    && final(self).store@ == old(self).store@)
                &&& (forall|k: Seq<char>| old(self).store@.dom().contains(k) ==> k.len() != 36)
                    ==> r is Ok
            },
    {
        let expected = inputs.circuit_id();
        if !self_verified || !receipt.circuit.matches(&expected) {
            return Err(NodeError::Verification);
        }
        self.store.insert(receipt, None)
    }

    /// Accept a receipt pushed by a peer: the verification gateway's
    /// decision. The expected circuit identity is recomputed from the
    /// claimed computation kind — never taken from bytes the peer supplied —
    /// and the transport calls the verifier capability with that recomputed
    /// identity, handing the verdict in as `verifier_accepted`. A receipt
    /// that failed verification, or whose embedded identity differs from
    /// the recomputed one, is rejected and never persisted. A duplicate
    /// identifier is already-known: a conflict, with nothing overwritten.
    pub fn save_receipt(&mut self, incoming: IncomingReceipt, verifier_accepted: bool) -> (r:
        Result<String, NodeError>)
        ensures
            final(self).registry@ == old(self).registry@,
            (!verifier_accepted || incoming.receipt@.circuit != spec_circuit_id(incoming.circuit))
                ==> (r matches Err(e) && e == NodeError::VerificationFailed && final(self).store@
                == old(self).store@),
            (verifier_accepted && incoming.receipt@.circuit == spec_circuit_id(incoming.circuit))
                ==> {
                &&& old(self).store@.dom().contains(incoming.uuid@) ==> (r matches Err(e) && e
                    == NodeError::Conflict && final(self).store@ == old(self).store@)
                &&& !old(self).store@.dom().contains(incoming.uuid@) ==> (r matches Ok(id) && id@
                    == incoming.uuid@ && final(self).store@ == old(self).store@.insert(
                    incoming.uuid@,
                    incoming.receipt@,
                ))
            },
    {
        let IncomingReceipt { uuid, circuit, receipt } = incoming;
        let expected = circuit.circuit_id();
        if !verifier_accepted || !receipt.circuit.matches(&expected) {
            return Err(NodeError::VerificationFailed);
        }
        self.store.insert(receipt, Some(uuid))
    }

    /// The peers a fresh receipt is replicated to: a registry snapshot
    /// taken at broadcast time. Delivery is fan-out, best-effort and
    /// detached; a failed push is logged by the transport and never
    /// surfaces to the caller that triggered the compute.
    pub fn broadcast_targets(&self) -> (r: Vec<PeerNode>)
        ensures
            r@.map_values(|p: PeerNode| p@) == self.registry@,
    {
        self.registry.list()
    }
}

} // verus!
