use vstd::prelude::*;

use crate::area::NodeArea;
use crate::node::NodeType;

verus! {

/// One node of a native result tree, copied out of the engine as plain
/// values. A `None` in an optional field records that the native accessor
/// returned its null sentinel. Fields are meaningful only for the kinds that
/// carry them; the rest are left at their defaults by whoever walks the
/// native tree.
#[derive(Debug)]
pub struct RawNode {
    /// The node's kind, from the engine's node-type accessor.
    pub kind: NodeType,
    /// The node's name: a chain label, a residue name, or an atom name.
    pub name: Option<String>,
    /// The raw residue-number field of a residue node.
    pub residue_number: Option<String>,
    /// The six-component area aggregate, in fixed-point units.
    pub area: Option<NodeArea>,
    /// The model number of a structure node.
    pub model: i32,
    /// Atom count of a structure or residue node.
    pub n_atoms: i32,
    /// Residue count of a chain node.
    pub n_residues: i32,
    /// Whether an atom is polar.
    pub is_polar: bool,
    /// Whether an atom belongs to the backbone.
    pub is_bb: bool,
    /// An atom's radius, in the same fixed-point unit as the areas.
    pub radius: i64,
    /// The classifier name of a result node.
    pub classified_by: Option<String>,
    /// The node's children, in native sibling order.
    pub children: Vec<RawNode>,
}

impl RawNode {
    /// A node with nothing filled in: `Unknown` kind, absent fields, no
    /// children. Walkers of the native tree start from this and set what the
    /// node's kind carries.
    pub fn empty() -> (r: RawNode)
        ensures
            r.kind == NodeType::Unknown,
            r.name is None,
            r.residue_number is None,
            r.area is None,
            r.model == 0,
            r.n_atoms == 0,
            r.n_residues == 0,
            r.is_polar == false,
            r.is_bb == false,
            r.radius == 0,
            r.classified_by is None,
            r.children@.len() == 0,
    {
        RawNode {
            kind: NodeType::Unknown,
            name: None,
            residue_number: None,
            area: None,
            model: 0,
            n_atoms: 0,
            n_residues: 0,
            is_polar: false,
            is_bb: false,
            radius: 0,
            classified_by: None,
            children: Vec::new(),
        }
    }
}

} // verus!
