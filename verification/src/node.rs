use vstd::prelude::*;

use crate::area::NodeArea;
use crate::properties::NodeProperties;
use crate::properties::props_eq;
use crate::text::eq_ignore_ascii_case;
use crate::text::spec_lower;
use crate::uids::NodeUid;
use crate::uids::uid_eq;

verus! {

/// The engine's code for an atom node.
pub const FS_NODE_ATOM: u32 = 0;

/// The engine's code for a residue node.
pub const FS_NODE_RESIDUE: u32 = 1;

/// The engine's code for a chain node.
pub const FS_NODE_CHAIN: u32 = 2;

/// The engine's code for a structure node.
pub const FS_NODE_STRUCTURE: u32 = 3;

/// The engine's code for a result node.
pub const FS_NODE_RESULT: u32 = 4;

/// The engine's code for the root node.
pub const FS_NODE_ROOT: u32 = 5;

/// The engine's code for "not a valid node".
pub const FS_NODE_NONE: u32 = 6;

/// The kind of a node in a result tree, from the root down to single atoms.
#[derive(Debug, Clone, Copy, PartialEq, Eq, Hash, Structural)]
pub enum NodeType {
    Unknown,
    Atom,
    Residue,
    Chain,
    Structure,
    Result,
    Root,
}

impl Default for NodeType {
    fn default() -> (r: NodeType)
        ensures
            r == NodeType::Unknown,
    {
        NodeType::Unknown
    }
}

/// What `NodeType::from_str` reads from a name, case-insensitively.
/// Only the kinds a caller may select are named, so `result` and `root`
/// are not.
pub open spec fn spec_node_type_from_str(s: Seq<char>) -> Option<NodeType> {
    let l = spec_lower(s);
    if l == "none"@ {
        Some(NodeType::Unknown)
    } else if l == "atom"@ {
        Some(NodeType::Atom)
    } else if l == "residue"@ {
        Some(NodeType::Residue)
    } else if l == "chain"@ {
        Some(NodeType::Chain)
    } else if l == "structure"@ {
        Some(NodeType::Structure)
    } else {
        None
    }
}

/// What `NodeLevel::from_str` reads from a name, case-insensitively.
pub open spec fn spec_node_level_from_str(s: Seq<char>) -> Option<NodeLevel> {
    let l = spec_lower(s);
    if l == "none"@ {
        Some(NodeLevel::Unknown)
    } else if l == "atom"@ {
        Some(NodeLevel::Atom)
    } else if l == "residue"@ {
        Some(NodeLevel::Residue)
    } else if l == "chain"@ {
        Some(NodeLevel::Chain)
    } else if l == "model"@ {
        Some(NodeLevel::Model)
    } else {
        None
    }
}

impl NodeType {
    /// Reads a node kind from its lower-cased name; case-insensitive.
    pub fn from_str(level: &str) -> (r: Option<NodeType>)
        ensures
            r == spec_node_type_from_str(level@),
    {
        proof {
            reveal_strlit("none");
            reveal_strlit("atom");
            reveal_strlit("residue");
            reveal_strlit("chain");
            reveal_strlit("structure");
            reveal_strlit("model");
        }
        if eq_ignore_ascii_case(level, "none") {
            Some(NodeType::Unknown)
        } else if eq_ignore_ascii_case(level, "atom") {
            Some(NodeType::Atom)
        } else if eq_ignore_ascii_case(level, "residue") {
            Some(NodeType::Residue)
        } else if eq_ignore_ascii_case(level, "chain") {
            Some(NodeType::Chain)
        } else if eq_ignore_ascii_case(level, "structure") {
            Some(NodeType::Structure)
        } else {
            None
        }
    }

    /// The lower-case name of the kind.
    pub fn to_str(&self) -> (r: &'static str)
        ensures
            *self == NodeType::Unknown ==> r@ == "none"@,
            *self == NodeType::Atom ==> r@ == "atom"@,
            *self == NodeType::Residue ==> r@ == "residue"@,
            *self == NodeType::Chain ==> r@ == "chain"@,
            *self == NodeType::Structure ==> r@ == "structure"@,
            *self == NodeType::Result ==> r@ == "result"@,
            *self == NodeType::Root ==> r@ == "root"@,
    {
        match self {
            NodeType::Unknown => "none",
            NodeType::Atom => "atom",
            NodeType::Residue => "residue",
            NodeType::Chain => "chain",
            NodeType::Structure => "structure",
            NodeType::Result => "result",
            NodeType::Root => "root",
        }
    }
}

/// The depth to which a calculation reports areas; `Model` is the whole
/// structure.
#[derive(Debug, Clone, Copy, PartialEq, Eq, Hash, Structural)]
pub enum NodeLevel {
    Unknown,
    Atom,
    Residue,
    Chain,
    Model,
}

impl Default for NodeLevel {
    fn default() -> (r: NodeLevel)
        ensures
            r == NodeLevel::Unknown,
    {
        NodeLevel::Unknown
    }
}

impl NodeLevel {
    /// Reads a level from its lower-cased name; case-insensitive.
    pub fn from_str(level: &str) -> (r: Option<NodeLevel>)
        ensures
            r == spec_node_level_from_str(level@),
    {
        proof {
            reveal_strlit("none");
            reveal_strlit("atom");
            reveal_strlit("residue");
            reveal_strlit("chain");
            reveal_strlit("structure");
            reveal_strlit("model");
        }
        if eq_ignore_ascii_case(level, "none") {
            Some(NodeLevel::Unknown)
        } else if eq_ignore_ascii_case(level, "atom") {
            Some(NodeLevel::Atom)
        } else if eq_ignore_ascii_case(level, "residue") {
            Some(NodeLevel::Residue)
        } else if eq_ignore_ascii_case(level, "chain") {
            Some(NodeLevel::Chain)
        } else if eq_ignore_ascii_case(level, "model") {
            Some(NodeLevel::Model)
        } else {
            None
        }
    }

    /// The lower-case name of the level.
    pub fn to_str(&self) -> (r: &'static str)
        ensures
            *self == NodeLevel::Unknown ==> r@ == "none"@,
            *self == NodeLevel::Atom ==> r@ == "atom"@,
            *self == NodeLevel::Residue ==> r@ == "residue"@,
            *self == NodeLevel::Chain ==> r@ == "chain"@,
            *self == NodeLevel::Model ==> r@ == "model"@,
    {
        match self {
            NodeLevel::Unknown => "none",
            NodeLevel::Atom => "atom",
            NodeLevel::Residue => "residue",
            NodeLevel::Chain => "chain",
            NodeLevel::Model => "model",
        }
    }
}

impl NodeType {
    /// Reads a kind from the engine's node-type code.
    pub fn from_fs_level(level: u32) -> (r: NodeType)
        requires
            level <= FS_NODE_NONE,
        ensures
            r == NodeType::Atom <==> level == FS_NODE_ATOM,
            r == NodeType::Residue <==> level == FS_NODE_RESIDUE,
            r == NodeType::Chain <==> level == FS_NODE_CHAIN,
            r == NodeType::Structure <==> level == FS_NODE_STRUCTURE,
            r == NodeType::Result <==> level == FS_NODE_RESULT,
            r == NodeType::Root <==> level == FS_NODE_ROOT,
            r == NodeType::Unknown <==> level == FS_NODE_NONE,
    {
        if level == FS_NODE_ATOM {
            NodeType::Atom
        } else if level == FS_NODE_RESIDUE {
            NodeType::Residue
        } else if level == FS_NODE_CHAIN {
            NodeType::Chain
        } else if level == FS_NODE_STRUCTURE {
            NodeType::Structure
        } else if level == FS_NODE_RESULT {
            NodeType::Result
        } else if level == FS_NODE_ROOT {
            NodeType::Root
        } else {
            NodeType::Unknown
        }
    }

    /// The engine's node-type code for this kind.
    pub fn to_fs_level(&self) -> (r: u32)
        ensures
            r == match *self {
                NodeType::Unknown => FS_NODE_NONE,
                NodeType::Atom => FS_NODE_ATOM,
                NodeType::Residue => FS_NODE_RESIDUE,
                NodeType::Chain => FS_NODE_CHAIN,
                NodeType::Structure => FS_NODE_STRUCTURE,
                NodeType::Result => FS_NODE_RESULT,
                NodeType::Root => FS_NODE_ROOT,
            },
    {
        match self {
            NodeType::Unknown => FS_NODE_NONE,
            NodeType::Atom => FS_NODE_ATOM,
            NodeType::Residue => FS_NODE_RESIDUE,
            NodeType::Chain => FS_NODE_CHAIN,
            NodeType::Structure => FS_NODE_STRUCTURE,
            NodeType::Result => FS_NODE_RESULT,
            NodeType::Root => FS_NODE_ROOT,
        }
    }
}

/// The engine's node-type code for a reporting level.
pub fn fs_level_from_node_level(level: NodeLevel) -> (r: u32)
    ensures
        r == match level {
            NodeLevel::Unknown => FS_NODE_NONE,
            NodeLevel::Atom => FS_NODE_ATOM,
            NodeLevel::Residue => FS_NODE_RESIDUE,
            NodeLevel::Chain => FS_NODE_CHAIN,
            NodeLevel::Model => FS_NODE_STRUCTURE,
        },
{
    match level {
        NodeLevel::Unknown => FS_NODE_NONE,
        NodeLevel::Atom => FS_NODE_ATOM,
        NodeLevel::Residue => FS_NODE_RESIDUE,
        NodeLevel::Chain => FS_NODE_CHAIN,
        NodeLevel::Model => FS_NODE_STRUCTURE,
    }
}

impl NodeLevel {
    /// Reads a level from the engine's node-type code; only the codes that
    /// name a reporting level are meaningful here.
    pub fn from_fs_level(level: u32) -> (r: NodeLevel)
        requires
            level == FS_NODE_NONE || level == FS_NODE_ATOM || level == FS_NODE_RESIDUE || level
                == FS_NODE_CHAIN || level == FS_NODE_STRUCTURE,
        ensures
            r == NodeLevel::Atom <==> level == FS_NODE_ATOM,
            r == NodeLevel::Residue <==> level == FS_NODE_RESIDUE,
            r == NodeLevel::Chain <==> level == FS_NODE_CHAIN,
            r == NodeLevel::Model <==> level == FS_NODE_STRUCTURE,
            r == NodeLevel::Unknown <==> level == FS_NODE_NONE,
    {
        if level == FS_NODE_ATOM {
            NodeLevel::Atom
        } else if level == FS_NODE_RESIDUE {
            NodeLevel::Residue
        } else if level == FS_NODE_CHAIN {
            NodeLevel::Chain
        } else if level == FS_NODE_STRUCTURE {
            NodeLevel::Model
        } else {
            NodeLevel::Unknown
        }
    }

    /// The engine's node-type code for this level.
    pub fn to_fs_level(&self) -> (r: u32)
        ensures
            r == match *self {
                NodeLevel::Unknown => FS_NODE_NONE,
                NodeLevel::Atom => FS_NODE_ATOM,
                NodeLevel::Residue => FS_NODE_RESIDUE,
                NodeLevel::Chain => FS_NODE_CHAIN,
                NodeLevel::Model => FS_NODE_STRUCTURE,
            },
    {
        fs_level_from_node_level(*self)
    }
}

/// One node of an owned tree: its kind, and whatever identity, area and
/// properties the kind carries.
#[derive(Debug)]
pub struct Node {
    pub area: Option<NodeArea>,
    pub uid: Option<NodeUid>,
    pub nodetype: NodeType,
    pub properties: Option<NodeProperties>,
}

/// Value equality of nodes: same kind and area, value-equal identities and
/// properties.
pub open spec fn node_eq(a: Node, b: Node) -> bool {
    &&& a.nodetype == b.nodetype
    &&& a.area == b.area
    &&& match (a.uid, b.uid) {
        (Some(x), Some(y)) => uid_eq(x, y),
        (None, None) => true,
        _ => false,
    }
    &&& match (a.properties, b.properties) {
        (Some(x), Some(y)) => props_eq(x, y),
        (None, None) => true,
        _ => false,
    }
}

impl Node {
    /// Assembles a node from its parts.
    pub fn new(
        nodetype: NodeType,
        properties: Option<NodeProperties>,
        area: Option<NodeArea>,
        uid: Option<NodeUid>,
    ) -> (r: Node)
        ensures
            r.nodetype == nodetype,
            r.properties == properties,
            r.area == area,
            r.uid == uid,
    {
        Node { area, uid, nodetype, properties }
    }

    /// The kind-specific properties, when the node carries any.
    pub fn properties(&self) -> (r: Option<&NodeProperties>)
        ensures
            match self.properties {
                Some(_) => r matches Some(p) && *p == self.properties->0,
                None => r is None,
            },
    {
        self.properties.as_ref()
    }

    /// The area aggregate, when the node carries one.
    pub fn area(&self) -> (r: Option<&NodeArea>)
        ensures
            match self.area {
                Some(a) => r matches Some(x) && *x == a,
                None => r is None,
            },
    {
        self.area.as_ref()
    }

    /// The identity, when the node carries one.
    pub fn uid(&self) -> (r: Option<&NodeUid>)
        ensures
            match self.uid {
                Some(_) => r matches Some(u) && *u == self.uid->0,
                None => r is None,
            },
    {
        self.uid.as_ref()
    }

    /// The node's kind.
    pub fn nodetype(&self) -> (r: &NodeType)
        ensures
            *r == self.nodetype,
    {
        &self.nodetype
    }

    /// Replaces the area aggregate.
    pub fn set_area(&mut self, area: Option<NodeArea>)
        ensures
            final(self).area == area,
            final(self).uid == old(self).uid,
            final(self).nodetype == old(self).nodetype,
            final(self).properties == old(self).properties,
    {
        self.area = area;
    }

    /// Removes and returns the area aggregate.
    pub fn take_area(&mut self) -> (r: Option<NodeArea>)
        ensures
            r == old(self).area,
            final(self).area is None,
            final(self).uid == old(self).uid,
            final(self).nodetype == old(self).nodetype,
            final(self).properties == old(self).properties,
    {
        let r = self.area;
        self.area = None;
        r
    }

    /// A value-equal copy of the node.
    pub fn duplicate(&self) -> (r: Node)
        ensures
            node_eq(r, *self),
    {
        let uid = match &self.uid {
            Some(u) => Some(u.duplicate()),
            None => None,
        };
        let properties = match &self.properties {
            Some(p) => Some(p.duplicate()),
            None => None,
        };
        Node { area: self.area, uid, nodetype: self.nodetype, properties }
    }
}

} // verus!
