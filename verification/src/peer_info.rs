//! What a client is told about a peer.

use vstd::prelude::*;

verus! {

/// The kinds of node, by how much of the chain they keep.
#[derive(Clone, Copy, Debug, PartialEq, Eq, Structural)]
pub enum NodeType {
    History,
    Full,
    Light,
}

impl NodeType {
    /// The kind of a peer: a peer that provides what a history node
    /// provides is one; otherwise one that provides what a full node
    /// provides is a full node; any other is a light node.
    pub open spec fn spec_of(provides_history: bool, provides_full: bool) -> NodeType {
        if provides_history {
            NodeType::History
        } else if provides_full {
            NodeType::Full
        } else {
            NodeType::Light
        }
    }

    /// The kind of a peer, from what it provides.
    pub fn of(provides_history: bool, provides_full: bool) -> (kind: NodeType)
        ensures
            kind == NodeType::spec_of(provides_history, provides_full),
    {
        if provides_history {
            NodeType::History
        } else if provides_full {
            NodeType::Full
        } else {
            NodeType::Light
        }
    }

    /// The name of the kind.
    pub open spec fn spec_name(self) -> Seq<char> {
        match self {
            NodeType::History => "history"@,
            NodeType::Full => "full"@,
            NodeType::Light => "light"@,
        }
    }

    /// The name of the kind.
    pub fn name(&self) -> (name: &'static str)
        ensures
            name@ == self.spec_name(),
    {
        match self {
            NodeType::History => "history",
            NodeType::Full => "full",
            NodeType::Light => "light",
        }
    }
}

/// Information about a networking peer.
#[derive(Debug)]
pub struct PlainPeerInfo {
    /// Address of the peer in multi-address format.
    pub address: String,
    /// Node type of the peer: `history`, `full` or `light`.
    pub node_type: String,
}

impl PlainPeerInfo {
    /// The information about a peer with an address that provides the
    /// services of a history node, of a full node, or of neither.
    pub fn new(address: String, provides_history: bool, provides_full: bool) -> (info: PlainPeerInfo)
        ensures
            info.address@ == address@,
            info.node_type@ == NodeType::spec_of(provides_history, provides_full).spec_name(),
    {
        let kind = NodeType::of(provides_history, provides_full);
        PlainPeerInfo { address, node_type: kind.name().to_owned() }
    }
}

} // verus!
