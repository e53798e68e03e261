use concordium_rust_sdk::constants::{
    DEFAULT_NETWORK_ID, MAX_MEMO_SIZE, MAX_PARAMETER_LEN, MAX_PAYLOAD_SIZE,
    MAX_REGISTERED_DATA_SIZE, MAX_WASM_MODULE_SIZE, MIN_NONCE, SHA256,
};
use concordium_rust_sdk::endpoints::IsInBakingCommittee::{
    ActiveInCommittee, AddedButNotActiveInCommittee, AddedButWrongKeys, NotInCommittee,
};
use concordium_rust_sdk::endpoints::{
    listed_peer, module_source_or_not_found, node_info, peer_details, same_bytes,
    AbsoluteBlockHeight, ActiveConsensusState, BlockHeight, BlockHeightRequest,
    BlocksAtHeightInput, ConsensusState, GenesisIndex, ListedPeer, NodeInfo,
    PeerDetails, QueryError, ResponseError,
};

#[test]
fn protocol_constants() {
    assert_eq!(MAX_PAYLOAD_SIZE, 100 * 1024);
    assert_eq!(MIN_NONCE, 1);
    assert_eq!(SHA256, 32);
    assert_eq!(MAX_REGISTERED_DATA_SIZE, 256);
    assert_eq!(MAX_MEMO_SIZE, 256);
    assert_eq!(MAX_PARAMETER_LEN, 1024);
    assert_eq!(MAX_WASM_MODULE_SIZE, 65536);
    assert_eq!(DEFAULT_NETWORK_ID, 100);
}

#[test]
fn blocks_at_height_requests() {
    let absolute = BlocksAtHeightInput::Absolute { height: AbsoluteBlockHeight { height: 77 } };
    assert_eq!(
        absolute.request(),
        BlockHeightRequest {
            block_height: 77,
            from_genesis_index: 0,
            restrict_to_genesis_index: false
        }
    );
    for restrict in [true, false] {
        let relative = BlocksAtHeightInput::Relative {
            genesis_index: GenesisIndex { height: 3 },
            height: BlockHeight { height: 12 },
            restrict,
        };
        assert_eq!(
            relative.request(),
            BlockHeightRequest {
                block_height: 12,
                from_genesis_index: 3,
                restrict_to_genesis_index: restrict
            }
        );
    }
}

#[test]
fn not_found_is_told_apart() {
    assert!(QueryError::NotFound.is_not_found());
    assert!(!QueryError::Response(ResponseError::NodeIdNotSet).is_not_found());
    assert_eq!(module_source_or_not_found(vec![]), Err(QueryError::NotFound));
    assert_eq!(module_source_or_not_found(vec![0]), Ok(vec![0]));
    assert_eq!(module_source_or_not_found(vec![1, 2, 3]), Ok(vec![1, 2, 3]));
}

#[test]
fn bytes_are_compared_whole() {
    assert!(same_bytes(b"", b""));
    assert!(same_bytes(b"Node", b"Node"));
    assert!(!same_bytes(b"Node", b"node"));
    assert!(!same_bytes(b"Node", b"Nod"));
    assert!(!same_bytes(b"Nod", b"Node"));
}

#[test]
fn peer_details_by_what_the_node_says() {
    assert_eq!(
        peer_details(b"Bootstrapper", true, true, ActiveInCommittee, None, true),
        Ok(PeerDetails::Bootstrapper)
    );
    let node = |state| Ok(PeerDetails::Node { consensus_state: state });
    for committee in [NotInCommittee, AddedButNotActiveInCommittee, AddedButWrongKeys, ActiveInCommittee] {
        for baker_running in [true, false] {
            assert_eq!(
                peer_details(b"Node", false, baker_running, committee, None, false),
                node(ConsensusState::NotRunning)
            );
        }
        assert_eq!(
            peer_details(b"Node", true, false, committee, Some(1), false),
            node(ConsensusState::Passive)
        );
    }
    let active = |s| node(ConsensusState::Active { active_state: s });
    assert_eq!(
        peer_details(b"Node", true, true, NotInCommittee, Some(1), true),
        active(ActiveConsensusState::NotInCommittee)
    );
    assert_eq!(
        peer_details(b"Node", true, true, AddedButNotActiveInCommittee, None, true),
        active(ActiveConsensusState::NotYetActive)
    );
    assert_eq!(
        peer_details(b"Node", true, true, AddedButWrongKeys, None, true),
        active(ActiveConsensusState::IncorrectKeys)
    );
    for finalizer in [true, false] {
        assert_eq!(
            peer_details(b"Node", true, true, ActiveInCommittee, Some(42), finalizer),
            active(ActiveConsensusState::Active { baker_id: 42, finalizer })
        );
    }
    assert_eq!(
        peer_details(b"Node", true, true, ActiveInCommittee, None, true),
        Err(ResponseError::ActiveWithoutBakerId)
    );
    for other in [&b"node"[..], b"", b"Nodes", b"bootstrapper", b"Baker"] {
        assert_eq!(
            peer_details(other, true, true, NotInCommittee, None, true),
            Err(ResponseError::UnrecognizedPeerType)
        );
    }
}

#[test]
fn node_info_needs_a_known_kind_and_an_identifier() {
    assert_eq!(
        node_info(Some("abc".to_string()), 1_600_000_000, b"Node", true, false, NotInCommittee, None, false),
        Ok(NodeInfo {
            node_id: "abc".to_string(),
            local_time: 1_600_000_000,
            peer_details: PeerDetails::Node { consensus_state: ConsensusState::Passive },
        })
    );
    assert_eq!(
        node_info(None, 1, b"Node", true, false, NotInCommittee, None, false),
        Err(ResponseError::NodeIdNotSet)
    );
    // The kind is looked at first.
    assert_eq!(
        node_info(None, 1, b"Other", true, false, NotInCommittee, None, false),
        Err(ResponseError::UnrecognizedPeerType)
    );
    assert_eq!(
        node_info(None, 1, b"Node", true, true, ActiveInCommittee, None, false),
        Err(ResponseError::ActiveWithoutBakerId)
    );
    assert_eq!(
        node_info(Some("b".to_string()), 2, b"Bootstrapper", false, false, NotInCommittee, None, false),
        Ok(NodeInfo {
            node_id: "b".to_string(),
            local_time: 2,
            peer_details: PeerDetails::Bootstrapper
        })
    );
}

#[test]
fn listed_peers_need_all_three() {
    let id = || Some("peer".to_string());
    let ip = || Some("10.0.0.1".to_string());
    assert_eq!(
        listed_peer(id(), Some(8888), ip()),
        Ok(ListedPeer { node_id: "peer".to_string(), port: 8888, ip: "10.0.0.1".to_string() })
    );
    assert_eq!(listed_peer(None, Some(8888), ip()), Err(ResponseError::PeerWithoutNodeId));
    assert_eq!(listed_peer(None, None, None), Err(ResponseError::PeerWithoutNodeId));
    assert_eq!(listed_peer(id(), None, ip()), Err(ResponseError::PeerWithoutPort));
    assert_eq!(listed_peer(id(), None, None), Err(ResponseError::PeerWithoutPort));
    assert_eq!(listed_peer(id(), Some(1), None), Err(ResponseError::PeerWithoutIp));
    // The port is cut down to 16 bits.
    assert_eq!(listed_peer(id(), Some(65_536 + 80), ip()).unwrap().port, 80);
    assert_eq!(listed_peer(id(), Some(65_535), ip()).unwrap().port, 65_535);
}

#[test]
fn consensus_runs_on_nodes_that_are_passive_or_active() {
    assert!(!PeerDetails::Bootstrapper.consensus_is_running());
    assert!(!PeerDetails::Node { consensus_state: ConsensusState::NotRunning }
        .consensus_is_running());
    assert!(PeerDetails::Node { consensus_state: ConsensusState::Passive }.consensus_is_running());
    for active_state in [
        ActiveConsensusState::NotInCommittee,
        ActiveConsensusState::NotYetActive,
        ActiveConsensusState::IncorrectKeys,
        ActiveConsensusState::Active { baker_id: 1, finalizer: false },
    ] {
        assert!(PeerDetails::Node { consensus_state: ConsensusState::Active { active_state } }
            .consensus_is_running());
    }
}
