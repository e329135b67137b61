use contradiction::circuits::{
    CircuitInputs, Hypotenuse, LinearPolynomial, compute_hypotenuse, decode_journal,
    encode_journal,
};
use contradiction::errors::NodeError;
use contradiction::models::DefaultResponse;
use contradiction::node::{IncomingReceipt, NodeService};
use contradiction::registry::RegisterOutcome;
use contradiction::store::Receipt;

/// What the external prover would hand back for these inputs, shaped as
/// the node stores it: the public journal carries the computed value.
fn prove(inputs: &CircuitInputs) -> Receipt {
    let value = match inputs {
        CircuitInputs::Hypotenuse(h) => compute_hypotenuse(h.x, h.y),
        CircuitInputs::LinearPolynomial(p) => p.a.wrapping_add(p.b).wrapping_add(p.c),
    };
    Receipt {
        proof_bytes: vec![0x5A; 8],
        journal: encode_journal(value),
        circuit: inputs.circuit_id(),
    }
}

/// What the external verifier capability would answer: the receipt must
/// carry the identity recomputed from the claimed inputs.
fn verify(inputs: &CircuitInputs, receipt: &Receipt) -> bool {
    inputs.circuit_id().matches(&receipt.circuit)
}

#[test]
fn ping_is_online() {
    let node = NodeService::new();
    let status = node.ping();
    assert_eq!(status.status, "online");
}

#[test]
fn compute_stores_and_returns_a_fresh_id() {
    let mut node = NodeService::new();
    let inputs = CircuitInputs::Hypotenuse(Hypotenuse { x: 3, y: 4 });
    let receipt = prove(&inputs);
    let verdict = verify(&inputs, &receipt);
    let id = node.accept_computed(&inputs, receipt, verdict).unwrap();
    assert_eq!(id.len(), 36);
    let fetched = node.fetch_receipt(&id).unwrap();
    assert_eq!(decode_journal(&fetched.journal), Some(5));
}

#[test]
fn failed_self_verification_is_never_stored() {
    let mut node = NodeService::new();
    let inputs = CircuitInputs::Hypotenuse(Hypotenuse { x: 3, y: 4 });
    let receipt = prove(&inputs);
    let err = node.accept_computed(&inputs, receipt, false).unwrap_err();
    assert_eq!(err, NodeError::Verification);
    assert_eq!(err.status_code(), 500);
    assert_eq!(node.list_peers().len(), 0);
    // nothing was stored
    let err = node.fetch_receipt(&String::from("anything")).unwrap_err();
    assert_eq!(err, NodeError::NotFound);
}

#[test]
fn misattributed_receipt_is_never_stored() {
    let mut node = NodeService::new();
    let claimed = CircuitInputs::Hypotenuse(Hypotenuse { x: 3, y: 4 });
    // a receipt produced for a different circuit, paired with the claim
    let other = CircuitInputs::LinearPolynomial(LinearPolynomial { a: 1, b: 2, c: 3 });
    let receipt = prove(&other);
    let err = node.accept_computed(&claimed, receipt, true).unwrap_err();
    assert_eq!(err, NodeError::Verification);
}

#[test]
fn save_receipt_gate_rejects_tampered_proofs() {
    let mut node = NodeService::new();
    let inputs = CircuitInputs::Hypotenuse(Hypotenuse { x: 3, y: 4 });
    let mut receipt = prove(&inputs);
    // tamper with the journal: the verifier capability says no
    receipt.journal = encode_journal(6);
    let incoming = IncomingReceipt {
        uuid: String::from("33333333-3333-3333-3333-333333333333"),
        circuit: CircuitInputs::Hypotenuse(Hypotenuse { x: 3, y: 4 }),
        receipt,
    };
    let uuid = incoming.uuid.clone();
    let err = node.save_receipt(incoming, false).unwrap_err();
    assert_eq!(err, NodeError::VerificationFailed);
    assert_eq!(err.status_code(), 422);
    assert_eq!(DefaultResponse::of_error(&err).status_code, 422);
    // never persisted
    let err = node.fetch_receipt(&uuid).unwrap_err();
    assert_eq!(err, NodeError::NotFound);
}

#[test]
fn save_receipt_accepts_and_persists_a_valid_receipt() {
    let mut node = NodeService::new();
    let inputs = CircuitInputs::Hypotenuse(Hypotenuse { x: 8, y: 15 });
    let receipt = prove(&inputs);
    let verdict = verify(&inputs, &receipt);
    let incoming = IncomingReceipt {
        uuid: String::from("44444444-4444-4444-4444-444444444444"),
        circuit: inputs,
        receipt,
    };
    let uuid = incoming.uuid.clone();
    let id = node.save_receipt(incoming, verdict).unwrap();
    assert_eq!(id, uuid);
    let fetched = node.fetch_receipt(&uuid).unwrap();
    assert_eq!(decode_journal(&fetched.journal), Some(17));
}

#[test]
fn duplicate_save_is_already_known() {
    let mut node = NodeService::new();
    let inputs = CircuitInputs::Hypotenuse(Hypotenuse { x: 3, y: 4 });
    let make_incoming = || IncomingReceipt {
        uuid: String::from("55555555-5555-5555-5555-555555555555"),
        circuit: CircuitInputs::Hypotenuse(Hypotenuse { x: 3, y: 4 }),
        receipt: prove(&inputs),
    };
    node.save_receipt(make_incoming(), true).unwrap();
    let err = node.save_receipt(make_incoming(), true).unwrap_err();
    assert_eq!(err, NodeError::Conflict);
    assert_eq!(err.status_code(), 409);
}

#[test]
fn broadcast_does_not_block_the_compute_answer() {
    // the serving node knows one reachable and one unreachable peer
    let mut node = NodeService::new();
    assert_eq!(node.register_peer(String::from("10.0.0.1"), 9001), RegisterOutcome::Created);
    assert_eq!(node.register_peer(String::from("10.0.0.2"), 9002), RegisterOutcome::Created);

    let inputs = CircuitInputs::Hypotenuse(Hypotenuse { x: 3, y: 4 });
    let receipt = prove(&inputs);
    let verdict = verify(&inputs, &receipt);
    // the caller's answer is owed as soon as store and verify succeed
    let id = node.accept_computed(&inputs, receipt, verdict).unwrap();

    // fan-out happens afterwards, over a snapshot, one push per peer;
    // the reachable peer re-verifies and accepts, the unreachable one is
    // only a logged failure
    let targets = node.broadcast_targets();
    assert_eq!(targets.len(), 2);
    let mut reachable_peer = NodeService::new();
    let mut delivery_failures = 0;
    for target in &targets {
        let message = IncomingReceipt {
            uuid: id.clone(),
            circuit: CircuitInputs::Hypotenuse(Hypotenuse { x: 3, y: 4 }),
            receipt: node.fetch_receipt(&id).unwrap().duplicate(),
        };
        if target.port == 9001 {
            let verdict = verify(&message.circuit, &message.receipt);
            reachable_peer.save_receipt(message, verdict).unwrap();
        } else {
            delivery_failures += 1;
        }
    }
    assert_eq!(delivery_failures, 1);
    // the reachable peer now serves the receipt; the caller kept its id
    let fetched = reachable_peer.fetch_receipt(&id).unwrap();
    assert_eq!(decode_journal(&fetched.journal), Some(5));
}

#[test]
fn full_node_scenario() {
    let mut node = NodeService::new();

    // RegisterPeer("127.0.0.1", 9000) -> created (201)
    let outcome = node.register_peer(String::from("127.0.0.1"), 9000);
    assert_eq!(outcome, RegisterOutcome::Created);
    assert_eq!(DefaultResponse::created(String::from("registered")).status_code, 201);

    // ListPeers() -> [{"127.0.0.1", 9000}]
    let peers = node.list_peers();
    assert_eq!(peers.len(), 1);
    assert_eq!(peers[0].address, "127.0.0.1");
    assert_eq!(peers[0].port, 9000);

    // Compute(Hypotenuse{x:3, y:4}) -> 201 with a new id
    let inputs = CircuitInputs::Hypotenuse(Hypotenuse { x: 3, y: 4 });
    let receipt = prove(&inputs);
    let verdict = verify(&inputs, &receipt);
    let id = node.accept_computed(&inputs, receipt, verdict).unwrap();
    let response = DefaultResponse::created(id.clone());
    assert_eq!(response.status_code, 201);
    assert_eq!(response.text, id);

    // FetchReceipt(id) -> 200 with a journal decoding to 5
    let fetched = node.fetch_receipt(&id).unwrap();
    assert_eq!(decode_journal(&fetched.journal), Some(5));
    assert_eq!(DefaultResponse::ok(String::from("payload")).status_code, 200);
}

#[test]
fn generated_ids_do_not_collide_across_many_computes() {
    let mut node = NodeService::new();
    let mut ids: Vec<String> = Vec::new();
    for x in 1u32..=30 {
        let inputs = CircuitInputs::Hypotenuse(Hypotenuse { x, y: x });
        let receipt = prove(&inputs);
        let verdict = verify(&inputs, &receipt);
        let id = node.accept_computed(&inputs, receipt, verdict).unwrap();
        assert!(!ids.contains(&id));
        ids.push(id);
    }
    for id in &ids {
        assert!(node.fetch_receipt(id).is_ok());
    }
}
