use shell_chain::consensus::{
    CanonicalBlockHeader, ConsensusError, HeaderBodyRootMismatchError,
    WitnessByteLimitExceededError,
};
use shell_chain::crypto::{
    CryptoError, SignatureLimitKind, SignatureSizeExceededError, VerificationFailure,
    VerificationPath, SCHEME_ID_ED25519,
};
use shell_chain::harness::{gossip_block_verdict, gossip_transaction_verdict};
use shell_chain::mempool::{
    AuthorizationMaterialCountError, FeeFloorError, FeeLane, ValidationError,
};
use shell_chain::state::StateError;
use shell_chain::network::{
    peer_action_for_consensus_error, peer_action_for_mempool_error,
    peer_action_for_validation_outcome, AnnouncementFilter, FetchDecision, NetworkError, NetworkOrigin,
    PeerAction, PeerActionHint, PeerId, ReputationDelta, SidecarFetchPolicy,
    OVERSIZED_REPUTATION_DELTA, POLICY_REPUTATION_DELTA,
};
use shell_chain::primitives::{
    MalformedSszError, PrimitiveError, Root, ValidationOutcome, ValidationStage,
};
use shell_chain::transactions::{GasPrice, U256};

fn peer_origin() -> NetworkOrigin {
    NetworkOrigin::Gossip {
        peer_id: PeerId::from([3; 32]),
    }
}

fn zero_gas_price() -> GasPrice {
    GasPrice(U256([0; 32]))
}

fn header_with_witness_bytes(witness_bytes: u64, block_root: Root) -> CanonicalBlockHeader {
    CanonicalBlockHeader {
        block_number: 1,
        timestamp: 1,
        parent_root: [0; 32],
        witness_bytes,
        block_root,
        transactions_root: [0; 32],
        execution_witnesses_root: [0; 32],
        state_root: [0; 32],
        receipts_root: [0; 32],
        proposer_signature: Vec::new(),
        proposer_index_hint: None,
    }
}

#[test]
fn ed25519_scheme_id_stays_stable_for_crypto_vectors() {
    assert_eq!(SCHEME_ID_ED25519, 0);
}

#[test]
fn oversized_witness_headers_skip_sidecar_fetch() {
    let policy = SidecarFetchPolicy {
        max_witness_bytes: Some(512),
        require_explicit_request: false,
    };
    let header = header_with_witness_bytes(1_024, [7; 32]);

    assert_eq!(policy.decide_for_header(&header, true), FetchDecision::Skip);
}

#[test]
fn explicit_request_can_be_required_before_fetching_sidecars() {
    let policy = SidecarFetchPolicy {
        max_witness_bytes: Some(2_048),
        require_explicit_request: true,
    };
    let header = header_with_witness_bytes(256, [9; 32]);

    assert_eq!(
        policy.decide_for_header(&header, false),
        FetchDecision::Defer
    );
    assert_eq!(
        policy.decide_for_header(&header, true),
        FetchDecision::Fetch
    );
}

#[test]
fn unsolicited_sidecars_are_deferred_until_requested() {
    let filter = AnnouncementFilter {
        max_transaction_bytes: None,
        max_sidecar_bytes: Some(1_024),
        allow_unsolicited_sidecars: false,
    };

    assert_eq!(
        filter.sidecar_fetch_decision(512, false),
        FetchDecision::Defer
    );
}

#[test]
fn oversized_announcements_are_skipped_even_when_requested() {
    let filter = AnnouncementFilter {
        max_transaction_bytes: Some(100),
        max_sidecar_bytes: Some(1_024),
        allow_unsolicited_sidecars: true,
    };

    assert_eq!(filter.transaction_fetch_decision(101), FetchDecision::Skip);
    assert_eq!(filter.transaction_fetch_decision(100), FetchDecision::Fetch);
    assert_eq!(filter.sidecar_fetch_decision(2_048, true), FetchDecision::Skip);
    assert_eq!(filter.sidecar_fetch_decision(512, false), FetchDecision::Fetch);
    assert_eq!(
        AnnouncementFilter::default().transaction_fetch_decision(u64::MAX),
        FetchDecision::Fetch
    );
}

#[test]
fn reject_outcomes_disconnect_remote_peers() {
    assert_eq!(
        peer_action_for_validation_outcome(&peer_origin(), ValidationOutcome::Reject),
        PeerAction::Disconnect {
            hint: PeerActionHint::RejectedObject,
        }
    );
}

#[test]
fn local_policy_rejects_do_not_penalize_local_origins() {
    assert_eq!(
        peer_action_for_validation_outcome(
            &NetworkOrigin::LocalRpc,
            ValidationOutcome::PolicyReject
        ),
        PeerAction::Ignore {
            hint: PeerActionHint::PolicyRejected,
        }
    );
}

#[test]
fn malformed_t0_transactions_disconnect_remote_peers() {
    let error = ValidationError::Primitive(PrimitiveError::MalformedSsz(MalformedSszError {
        context: "truncated tx announcement",
    }));

    assert_eq!(
        peer_action_for_mempool_error(&peer_origin(), ValidationStage::T0, &error),
        PeerAction::Disconnect {
            hint: PeerActionHint::MalformedAnnouncement,
        }
    );
}

#[test]
fn fee_floor_failures_lower_remote_peer_reputation() {
    let error = ValidationError::FeeFloor(FeeFloorError {
        lane: FeeLane::Payload,
        required: zero_gas_price(),
        actual: zero_gas_price(),
    });

    assert_eq!(
        peer_action_for_mempool_error(&peer_origin(), ValidationStage::T2, &error),
        PeerAction::AdjustReputation(ReputationDelta::new(
            POLICY_REPUTATION_DELTA,
            PeerActionHint::PolicyRejected,
        ))
    );
}

#[test]
fn header_body_mismatch_disconnects_remote_peers() {
    let error = ConsensusError::HeaderBodyRootMismatch(HeaderBodyRootMismatchError {
        expected: Root::default(),
        actual: [9; 32],
    });

    assert_eq!(
        peer_action_for_consensus_error(&peer_origin(), &error),
        PeerAction::Disconnect {
            hint: PeerActionHint::InvalidBlock,
        }
    );
}

#[test]
fn oversized_headers_are_scored_without_disconnect() {
    let error = ConsensusError::WitnessByteLimitExceeded(WitnessByteLimitExceededError {
        max_bytes: 512,
        actual_bytes: 1_024,
    });

    assert_eq!(
        peer_action_for_consensus_error(&peer_origin(), &error),
        PeerAction::AdjustReputation(ReputationDelta::new(
            OVERSIZED_REPUTATION_DELTA,
            PeerActionHint::OversizedObject,
        ))
    );
}

#[test]
fn validator_path_transport_guard_is_scored_as_oversized() {
    let guard = ConsensusError::Crypto(CryptoError::SignatureSizeExceeded(
        SignatureSizeExceededError {
            max_size: 32,
            actual_size: 64,
            path: VerificationPath::ValidatorMessage,
            kind: SignatureLimitKind::LocalTransportGuard,
        },
    ));
    assert_eq!(
        peer_action_for_consensus_error(&peer_origin(), &guard),
        PeerAction::AdjustReputation(ReputationDelta::new(-5, PeerActionHint::OversizedObject))
    );

    let failure = ConsensusError::Crypto(CryptoError::VerificationFailed(VerificationFailure {
        scheme_id: 0,
        context: "bad signature",
    }));
    assert_eq!(
        peer_action_for_consensus_error(&peer_origin(), &failure),
        PeerAction::Disconnect {
            hint: PeerActionHint::InvalidSignature,
        }
    );
}

#[test]
fn local_origins_are_never_disconnected() {
    for origin in [
        NetworkOrigin::LocalRpc,
        NetworkOrigin::LocalBuilder,
        NetworkOrigin::TestHarness,
    ] {
        assert!(!origin.penalizes_peer());
        assert_eq!(origin.peer_id(), None);
        let error = ConsensusError::HeaderBodyRootMismatch(HeaderBodyRootMismatchError {
            expected: [0; 32],
            actual: [1; 32],
        });
        assert_eq!(
            peer_action_for_consensus_error(&origin, &error),
            PeerAction::Ignore {
                hint: PeerActionHint::InvalidBlock,
            }
        );
    }
    let remote = NetworkOrigin::Sync {
        peer_id: PeerId::new(vec![1, 2, 3]),
    };
    assert!(remote.penalizes_peer());
    assert_eq!(remote.peer_id().map(|id| id.as_bytes().to_vec()), Some(vec![1, 2, 3]));
}

#[test]
fn crypto_failures_classify_for_the_network() {
    let guard = CryptoError::SignatureSizeExceeded(SignatureSizeExceededError {
        max_size: 32,
        actual_size: 64,
        path: VerificationPath::ValidatorMessage,
        kind: SignatureLimitKind::LocalTransportGuard,
    });
    assert_eq!(
        guard.network_validation_outcome(),
        Some(ValidationOutcome::PolicyReject)
    );
    let rule = CryptoError::SignatureSizeExceeded(SignatureSizeExceededError {
        max_size: 32,
        actual_size: 64,
        path: VerificationPath::TransactionAuthorization,
        kind: SignatureLimitKind::LocalTransportGuard,
    });
    assert_eq!(rule.network_validation_outcome(), Some(ValidationOutcome::Reject));
}

#[test]
fn gossip_verdicts_and_peer_actions_agree() {
    let origin = peer_origin();

    let witness_failure = ConsensusError::State(StateError::WitnessVerificationFailed(
        "reference witness set does not match the committed execution_witnesses_root",
    ));
    assert_eq!(gossip_block_verdict(Err(witness_failure)), Ok(ValidationOutcome::Reject));
    assert_eq!(
        peer_action_for_consensus_error(&origin, &witness_failure),
        PeerAction::Disconnect {
            hint: PeerActionHint::InvalidBlock
        }
    );

    let oversized = ConsensusError::WitnessByteLimitExceeded(WitnessByteLimitExceededError {
        max_bytes: 16,
        actual_bytes: 17,
    });
    assert_eq!(gossip_block_verdict(Err(oversized)), Ok(ValidationOutcome::PolicyReject));
    assert!(matches!(
        peer_action_for_consensus_error(&origin, &oversized),
        PeerAction::AdjustReputation(_)
    ));

    let missing = ValidationError::AuthorizationMaterialCount(AuthorizationMaterialCountError {
        expected: 1,
        actual: 0,
    });
    assert_eq!(gossip_transaction_verdict::<()>(Err(missing)), Err(missing));
    assert_eq!(
        peer_action_for_mempool_error(&origin, ValidationStage::T3, &missing),
        PeerAction::Ignore {
            hint: PeerActionHint::InternalError
        }
    );

    let unimplemented = ConsensusError::Primitive(PrimitiveError::Unimplemented("codec"));
    assert_eq!(gossip_block_verdict(Err(unimplemented)), Err(unimplemented));
    assert_eq!(
        peer_action_for_consensus_error(&origin, &unimplemented),
        PeerAction::Disconnect {
            hint: PeerActionHint::MalformedAnnouncement
        }
    );
}

#[test]
fn error_layers_wrap_their_sources() {
    let primitive = PrimitiveError::MalformedSsz(MalformedSszError { context: "truncated" });
    let consensus: ConsensusError = primitive.into();
    assert_eq!(consensus, ConsensusError::Primitive(primitive));
    let state: ConsensusError = StateError::Backend("offline").into();
    assert_eq!(state, ConsensusError::State(StateError::Backend("offline")));

    let network: NetworkError = consensus.into();
    assert_eq!(network, NetworkError::Consensus(consensus));
    let fee = ValidationError::FeeFloor(FeeFloorError {
        lane: FeeLane::Witness,
        required: GasPrice(U256([1; 32])),
        actual: GasPrice(U256([0; 32])),
    });
    assert_eq!(NetworkError::from(fee), NetworkError::Validation(fee));

    let peer = PeerId::from([9; 32]);
    assert_eq!(peer.as_ref(), &[9u8; 32][..]);
}
