//! What a client decides about the requests it sends to a node and about
//! the answers it gets, apart from sending and receiving them.

use vstd::prelude::*;

verus! {

/// The height of a block counted from the first block of the chain.
#[derive(Clone, Copy, Debug, PartialEq, Eq, Structural)]
pub struct AbsoluteBlockHeight {
    pub height: u64,
}

/// The height of a block counted from the last genesis block before it.
#[derive(Clone, Copy, Debug, PartialEq, Eq, Structural)]
pub struct BlockHeight {
    pub height: u64,
}

/// The number of a genesis block: one for the start of the chain and one
/// more for each protocol update since.
#[derive(Clone, Copy, Debug, PartialEq, Eq, Structural)]
pub struct GenesisIndex {
    pub height: u32,
}

/// Which blocks a query for the blocks at a height asks for.
#[derive(Clone, Copy, Debug, PartialEq, Eq, Structural)]
pub enum BlocksAtHeightInput {
    Absolute {
        /// Height from the beginning of the chain.
        height: AbsoluteBlockHeight,
    },
    /// Query relative to an explicit genesis index.
    Relative {
        /// Genesis index to start from.
        genesis_index: GenesisIndex,
        /// Height starting from the genesis block at the genesis index.
        height: BlockHeight,
        /// Whether to return results only from the specified genesis index
        /// (`true`), or allow results from more recent genesis indices as
        /// well (`false`).
        restrict: bool,
    },
}

/// The request for the blocks at a height, as it is sent to a node.
#[derive(Clone, Copy, Debug, PartialEq, Eq, Structural)]
pub struct BlockHeightRequest {
    pub block_height: u64,
    pub from_genesis_index: u32,
    pub restrict_to_genesis_index: bool,
}

impl BlocksAtHeightInput {
    /// The request that asks a node for these blocks. An absolute height
    /// counts from the genesis block with index 0, without restriction.
    pub fn request(&self) -> (request: BlockHeightRequest)
        ensures
            request == match *self {
                BlocksAtHeightInput::Absolute { height } => BlockHeightRequest {
                    block_height: height.height,
                    from_genesis_index: 0,
                    restrict_to_genesis_index: false,
                },
                BlocksAtHeightInput::Relative {
                    genesis_index,
                    height,
                    restrict,
                } => BlockHeightRequest {
                    block_height: height.height,
                    from_genesis_index: genesis_index.height,
                    restrict_to_genesis_index: restrict,
                },
            },
    {
        match *self {
            BlocksAtHeightInput::Absolute { height } => BlockHeightRequest {
                block_height: height.height,
                from_genesis_index: 0,
                restrict_to_genesis_index: false,
            },
            BlocksAtHeightInput::Relative { genesis_index, height, restrict } => BlockHeightRequest {
                block_height: height.height,
                from_genesis_index: genesis_index.height,
                restrict_to_genesis_index: restrict,
            },
        }
    }
}

/// What is wrong with an answer of a node that cannot be made sense of.
#[derive(Clone, Copy, Debug, PartialEq, Eq, Structural)]
pub enum ResponseError {
    /// A peer is listed without the identifier of its node.
    PeerWithoutNodeId,
    /// A peer is listed without a port.
    PeerWithoutPort,
    /// A peer is listed without an address.
    PeerWithoutIp,
    /// The node says it is of a kind that is not known.
    UnrecognizedPeerType,
    /// The node says it bakes in the committee and does not say as which
    /// baker.
    ActiveWithoutBakerId,
    /// The node does not say what its identifier is.
    NodeIdNotSet,
}

/// Why a query did not give what was asked for.
#[derive(Clone, Copy, Debug, PartialEq, Eq, Structural)]
pub enum QueryError {
    /// The answer of the node could not be made sense of.
    Response(ResponseError),
    /// What was asked for does not exist.
    NotFound,
}

impl QueryError {
    /// Whether this error says that what was asked for does not exist.
    pub fn is_not_found(&self) -> (b: bool)
        ensures
            b == (*self == QueryError::NotFound),
    {
        match self {
            QueryError::NotFound => true,
            QueryError::Response(_) => false,
        }
    }
}

/// The source of a module as a node hands it out: no bytes at all mean that
/// there is no such module.
pub fn module_source_or_not_found(bytes: Vec<u8>) -> (r: Result<Vec<u8>, QueryError>)
    ensures
        r == if bytes@.len() == 0 {
            Err::<Vec<u8>, _>(QueryError::NotFound)
        } else {
            Ok::<_, QueryError>(bytes)
        },
{
    if bytes.len() == 0 {
        Err(QueryError::NotFound)
    } else {
        Ok(bytes)
    }
}

/// What a node says about its place in the baking committee.
#[derive(Clone, Copy, Debug, PartialEq, Eq, Structural)]
pub enum IsInBakingCommittee {
    NotInCommittee,
    AddedButNotActiveInCommittee,
    AddedButWrongKeys,
    ActiveInCommittee,
}

/// The part that a node with running consensus and baker takes in baking.
#[derive(Clone, Copy, Debug, PartialEq, Eq, Structural)]
pub enum ActiveConsensusState {
    /// The node has baker keys, but they are not the keys of any baker.
    NotInCommittee,
    /// The keys are those of a baker that is not yet in the committee.
    NotYetActive,
    /// The account is registered as a baker with other keys than the node's.
    IncorrectKeys,
    /// The node bakes as the given baker, and may also finalize.
    Active { baker_id: u64, finalizer: bool },
}

/// The state of the consensus of a node.
#[derive(Clone, Copy, Debug, PartialEq, Eq, Structural)]
pub enum ConsensusState {
    /// Consensus is not running.
    NotRunning,
    /// Consensus is running, and the node does not bake.
    Passive,
    /// Consensus is running, and the node is set up to bake.
    Active { active_state: ActiveConsensusState },
}

/// The kind of a node.
#[derive(Clone, Copy, Debug, PartialEq, Eq, Structural)]
pub enum PeerDetails {
    /// A node that only helps other nodes to find peers.
    Bootstrapper,
    /// A node that takes part in the chain.
    Node { consensus_state: ConsensusState },
}

impl PeerDetails {
    /// Whether the consensus of the node is running: it is a node, not a
    /// bootstrapper, and its consensus is passive or active.
    pub fn consensus_is_running(&self) -> (running: bool)
        ensures
            running == match *self {
                PeerDetails::Bootstrapper => false,
                PeerDetails::Node { consensus_state } => consensus_state
                    != ConsensusState::NotRunning,
            },
    {
        match self {
            PeerDetails::Bootstrapper => false,
            PeerDetails::Node { consensus_state } => match consensus_state {
                ConsensusState::NotRunning => false,
                ConsensusState::Passive => true,
                ConsensusState::Active { .. } => true,
            },
        }
    }
}

/// The text `Bootstrapper` in bytes.
pub open spec fn bootstrapper_text() -> Seq<u8> {
    seq![66u8, 111, 111, 116, 115, 116, 114, 97, 112, 112, 101, 114]
}

/// The text `Node` in bytes.
pub open spec fn node_text() -> Seq<u8> {
    seq![78u8, 111, 100, 101]
}

/// Whether two byte strings are the same.
pub fn same_bytes(a: &[u8], b: &[u8]) -> (same: bool)
    ensures
        same == (a@ == b@),
{
    if a.len() != b.len() {
        return false;
    }
    let mut i: usize = 0;
    while i < a.len()
        invariant
            i <= a@.len(),
            a@.len() == b@.len(),
            forall|j: int| 0 <= j < i ==> a@[j] == b@[j],
        decreases a@.len() - i,
    {
        if a[i] != b[i] {
            return false;
        }
        i = i + 1;
    }
    assert(a@ =~= b@);
    true
}

/// What a node that says the given things about itself is: a bootstrapper,
/// or a node whose consensus does not run, runs without baking, or runs
/// with a baker that takes the part that the node reports.
pub open spec fn spec_peer_details(
    peer_type: Seq<u8>,
    consensus_running: bool,
    baker_running: bool,
    committee: IsInBakingCommittee,
    baker_id: Option<u64>,
    finalizer: bool,
) -> Result<PeerDetails, ResponseError> {
    if peer_type == bootstrapper_text() {
        Ok(PeerDetails::Bootstrapper)
    } else if peer_type == node_text() {
        if !consensus_running {
            Ok(PeerDetails::Node { consensus_state: ConsensusState::NotRunning })
        } else if !baker_running {
            Ok(PeerDetails::Node { consensus_state: ConsensusState::Passive })
        } else {
            match committee {
                IsInBakingCommittee::NotInCommittee => Ok(
                    PeerDetails::Node {
                        consensus_state: ConsensusState::Active {
                            active_state: ActiveConsensusState::NotInCommittee,
                        },
                    },
                ),
                IsInBakingCommittee::AddedButNotActiveInCommittee => Ok(
                    PeerDetails::Node {
                        consensus_state: ConsensusState::Active {
                            active_state: ActiveConsensusState::NotYetActive,
                        },
                    },
                ),
                IsInBakingCommittee::AddedButWrongKeys => Ok(
                    PeerDetails::Node {
                        consensus_state: ConsensusState::Active {
                            active_state: ActiveConsensusState::IncorrectKeys,
                        },
                    },
                ),
                IsInBakingCommittee::ActiveInCommittee => match baker_id {
                    Some(id) => Ok(
                        PeerDetails::Node {
                            consensus_state: ConsensusState::Active {
                                active_state: ActiveConsensusState::Active {
                                    baker_id: id,
                                    finalizer,
                                },
                            },
                        },
                    ),
                    None => Err(ResponseError::ActiveWithoutBakerId),
                },
            }
        }
    } else {
        Err(ResponseError::UnrecognizedPeerType)
    }
}

/// Works out what kind of node it is that says the given things about
/// itself, where the kind it names is known and what it says hangs
/// together.
pub fn peer_details(
    peer_type: &[u8],
    consensus_running: bool,
    baker_running: bool,
    committee: IsInBakingCommittee,
    baker_id: Option<u64>,
    finalizer: bool,
) -> (r: Result<PeerDetails, ResponseError>)
    ensures
        r == spec_peer_details(
            peer_type@,
            consensus_running,
            baker_running,
            committee,
            baker_id,
            finalizer,
        ),
{
    let bootstrapper: [u8; 12] = [66, 111, 111, 116, 115, 116, 114, 97, 112, 112, 101, 114];
    let node: [u8; 4] = [78, 111, 100, 101];
    assert(bootstrapper@ =~= bootstrapper_text());
    assert(node@ =~= node_text());
    if same_bytes(peer_type, bootstrapper.as_slice()) {
        Ok(PeerDetails::Bootstrapper)
    } else if same_bytes(peer_type, node.as_slice()) {
        let consensus_state = if consensus_running {
            if baker_running {
                let active_state = match committee {
                    IsInBakingCommittee::NotInCommittee => ActiveConsensusState::NotInCommittee,
                    IsInBakingCommittee::AddedButNotActiveInCommittee => ActiveConsensusState::NotYetActive,
                    IsInBakingCommittee::AddedButWrongKeys => ActiveConsensusState::IncorrectKeys,
                    IsInBakingCommittee::ActiveInCommittee => match baker_id {
                        Some(id) => ActiveConsensusState::Active { baker_id: id, finalizer },
                        None => {
                            return Err(ResponseError::ActiveWithoutBakerId);
                        },
                    },
                };
                ConsensusState::Active { active_state }
            } else {
                ConsensusState::Passive
            }
        } else {
            ConsensusState::NotRunning
        };
        Ok(PeerDetails::Node { consensus_state })
    } else {
        Err(ResponseError::UnrecognizedPeerType)
    }
}

/// What a node reports about itself.
#[derive(Clone, Debug, PartialEq, Eq)]
pub struct NodeInfo {
    /// The identifier of the node.
    pub node_id: String,
    /// The time on the node's clock, in seconds since the Unix epoch.
    pub local_time: u64,
    /// The kind of the node.
    pub peer_details: PeerDetails,
}

/// Puts together what a node reports about itself. What kind of node it is
/// is worked out first; a node that does not say its identifier is an error
/// after that.
pub fn node_info(
    node_id: Option<String>,
    local_time: u64,
    peer_type: &[u8],
    consensus_running: bool,
    baker_running: bool,
    committee: IsInBakingCommittee,
    baker_id: Option<u64>,
    finalizer: bool,
) -> (r: Result<NodeInfo, ResponseError>)
    ensures
        match spec_peer_details(
            peer_type@,
            consensus_running,
            baker_running,
            committee,
            baker_id,
            finalizer,
        ) {
            Err(e) => r == Err::<NodeInfo, _>(e),
            Ok(details) => match node_id {
                None => r == Err::<NodeInfo, _>(ResponseError::NodeIdNotSet),
                Some(id) => r == Ok::<_, ResponseError>(
                    NodeInfo { node_id: id, local_time, peer_details: details },
                ),
            },
        },
{
    let details = peer_details(
        peer_type,
        consensus_running,
        baker_running,
        committee,
        baker_id,
        finalizer,
    )?;
    match node_id {
        Some(id) => Ok(NodeInfo { node_id: id, local_time, peer_details: details }),
        None => Err(ResponseError::NodeIdNotSet),
    }
}

/// A peer as a node lists it, with what must be there: the identifier of
/// its node, its port and its address as text.
#[derive(Clone, Debug, PartialEq, Eq)]
pub struct ListedPeer {
    pub node_id: String,
    pub port: u16,
    pub ip: String,
}

/// Checks that a listed peer has an identifier, a port and an address, in
/// this order, and cuts the port down to 16 bits.
pub fn listed_peer(node_id: Option<String>, port: Option<u32>, ip: Option<String>) -> (r: Result<
    ListedPeer,
    ResponseError,
>)
    ensures
        r == match (node_id, port, ip) {
            (None, _, _) => Err::<ListedPeer, _>(ResponseError::PeerWithoutNodeId),
            (Some(_), None, _) => Err::<ListedPeer, _>(ResponseError::PeerWithoutPort),
            (Some(_), Some(_), None) => Err::<ListedPeer, _>(ResponseError::PeerWithoutIp),
            (Some(id), Some(p), Some(address)) => Ok::<_, ResponseError>(
                ListedPeer { node_id: id, port: p as u16, ip: address },
            ),
        },
{
    let node_id = match node_id {
        Some(id) => id,
        None => {
            return Err(ResponseError::PeerWithoutNodeId);
        },
    };
    let port = match port {
        Some(p) => p as u16,
        None => {
            return Err(ResponseError::PeerWithoutPort);
        },
    };
    let ip = match ip {
        Some(address) => address,
        None => {
            return Err(ResponseError::PeerWithoutIp);
        },
    };
    Ok(ListedPeer { node_id, port, ip })
}

} // verus!
