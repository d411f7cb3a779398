use vstd::prelude::*;

use crate::error::FreesasaError;
use crate::error::FreesasaErrorKind;
use crate::uids::NodeUid;
use crate::uids::spec_parse_chain_label;
use crate::uids::spec_parse_residue_field;

verus! {

/// Properties of an atom node. The radius is a fixed-point integer in the
/// same unit as the areas.
#[derive(Debug, Clone, Copy, PartialEq, Eq, Structural)]
pub struct AtomProperties {
    pub is_polar: bool,
    pub is_bb: bool,
    pub radius: i64,
}

impl AtomProperties {
    /// Validates the fields read off a native atom node. The atom's name is
    /// required (a null name is a hard error) though it is carried in the
    /// identity, not here.
    pub fn new(name: Option<&str>, is_polar: bool, is_bb: bool, radius: i64) -> (r: Result<
        AtomProperties,
        FreesasaError,
    >)
        ensures
            match r {
                Ok(p) => name is Some && p == (AtomProperties { is_polar, is_bb, radius }),
                Err(e) => name is None && e.kind == Some(FreesasaErrorKind::NullNativeField),
            },
    {
        if name.is_none() {
            return Err(
                FreesasaError::new(
                    "atom node had no name",
                    Some(FreesasaErrorKind::NullNativeField),
                    None,
                ),
            );
        }
        Ok(AtomProperties { is_polar, is_bb, radius })
    }
}

/// Properties of a residue node.
#[derive(Debug)]
pub struct ResidueProperties {
    pub n_atoms: i32,
    pub resname: String,
}

impl ResidueProperties {
    /// Validates the fields read off a native residue node: the raw
    /// residue-number field must parse, and the residue name must be
    /// present.
    pub fn new(n_atoms: i32, raw_number: Option<&str>, resname: Option<&str>) -> (r: Result<
        ResidueProperties,
        FreesasaError,
    >)
        ensures
            match r {
                Ok(p) => {
                    &&& raw_number matches Some(num) && spec_parse_residue_field(num@) is Some
                    &&& resname matches Some(name) && p.resname@ == name@
                    &&& p.n_atoms == n_atoms
                },
                Err(e) => match (raw_number, resname) {
                    (None, _) => e.kind == Some(FreesasaErrorKind::NullNativeField),
                    (_, None) => e.kind == Some(FreesasaErrorKind::NullNativeField),
                    (Some(num), Some(_)) => spec_parse_residue_field(num@) is None && e.kind
                        == Some(FreesasaErrorKind::InvalidResidueNumber),
                },
            },
    {
        let num = match raw_number {
            Some(n) => n,
            None => {
                return Err(
                    FreesasaError::new(
                        "residue node had no residue-number field",
                        Some(FreesasaErrorKind::NullNativeField),
                        None,
                    ),
                );
            },
        };
        let name = match resname {
            Some(n) => n,
            None => {
                return Err(
                    FreesasaError::new(
                        "residue node had no name",
                        Some(FreesasaErrorKind::NullNativeField),
                        None,
                    ),
                );
            },
        };
        match NodeUid::parse_residue_field(num) {
            Ok(_) => Ok(ResidueProperties { n_atoms, resname: name.to_owned() }),
            Err(e) => Err(e),
        }
    }
}

/// Properties of a chain node; `structure` is the model number of the
/// structure the chain belongs to.
#[derive(Debug, Clone, Copy, PartialEq, Eq, Structural)]
pub struct ChainProperties {
    pub n_residues: i32,
    pub id: char,
    pub structure: i32,
}

impl ChainProperties {
    /// Validates the fields read off a native chain node: the label must be
    /// one printable character, and the parent structure's model number must
    /// be present.
    pub fn new(n_residues: i32, label: Option<&str>, structure: Option<i32>) -> (r: Result<
        ChainProperties,
        FreesasaError,
    >)
        ensures
            match r {
                Ok(p) => {
                    &&& label matches Some(l) && spec_parse_chain_label(l@) == Some(p.id)
                    &&& structure == Some(p.structure)
                    &&& p.n_residues == n_residues
                },
                Err(e) => match (label, structure) {
                    (None, _) => e.kind == Some(FreesasaErrorKind::NullNativeField),
                    (_, None) => e.kind == Some(FreesasaErrorKind::NullNativeField),
                    (Some(l), Some(_)) => spec_parse_chain_label(l@) is None && e.kind == Some(
                        FreesasaErrorKind::InvalidChainLabel,
                    ),
                },
            },
    {
        let l = match label {
            Some(l) => l,
            None => {
                return Err(
                    FreesasaError::new(
                        "chain node had no name",
                        Some(FreesasaErrorKind::NullNativeField),
                        None,
                    ),
                );
            },
        };
        let model = match structure {
            Some(m) => m,
            None => {
                return Err(
                    FreesasaError::new(
                        "chain node had no parent structure",
                        Some(FreesasaErrorKind::NullNativeField),
                        None,
                    ),
                );
            },
        };
        match NodeUid::parse_chain_label(l) {
            Ok(id) => Ok(ChainProperties { n_residues, id, structure: model }),
            Err(e) => Err(e),
        }
    }
}

/// Properties of a structure node.
#[derive(Debug, Clone, Copy, PartialEq, Eq, Structural)]
pub struct StructureProperties {
    pub n_atoms: i32,
}

impl StructureProperties {
    pub fn new(n_atoms: i32) -> (r: StructureProperties)
        ensures
            r == (StructureProperties { n_atoms }),
    {
        StructureProperties { n_atoms }
    }
}

/// Properties of a result node: the name of the classifier the areas were
/// computed with.
#[derive(Debug)]
pub struct ResultProperties {
    pub classified_by: String,
}

impl ResultProperties {
    pub fn new(classified_by: Option<&str>) -> (r: Result<ResultProperties, FreesasaError>)
        ensures
            match r {
                Ok(p) => classified_by matches Some(c) && p.classified_by@ == c@,
                Err(e) => classified_by is None && e.kind == Some(
                    FreesasaErrorKind::NullNativeField,
                ),
            },
    {
        match classified_by {
            Some(c) => Ok(ResultProperties { classified_by: c.to_owned() }),
            None => Err(
                FreesasaError::new(
                    "result node had no classifier name",
                    Some(FreesasaErrorKind::NullNativeField),
                    None,
                ),
            ),
        }
    }
}

/// The kind-specific properties a node may carry.
#[derive(Debug)]
pub enum NodeProperties {
    Atom(AtomProperties),
    Residue(ResidueProperties),
    Chain(ChainProperties),
    Structure(StructureProperties),
    Result(ResultProperties),
}

/// Value equality of property sets, comparing strings by their characters.
pub open spec fn props_eq(a: NodeProperties, b: NodeProperties) -> bool {
    match (a, b) {
        (NodeProperties::Atom(x), NodeProperties::Atom(y)) => x == y,
        (NodeProperties::Residue(x), NodeProperties::Residue(y)) => x.n_atoms == y.n_atoms
            && x.resname@ == y.resname@,
        (NodeProperties::Chain(x), NodeProperties::Chain(y)) => x == y,
        (NodeProperties::Structure(x), NodeProperties::Structure(y)) => x == y,
        (NodeProperties::Result(x), NodeProperties::Result(y)) => x.classified_by@
            == y.classified_by@,
        _ => false,
    }
}

impl NodeProperties {
    /// A value-equal copy.
    pub fn duplicate(&self) -> (r: NodeProperties)
        ensures
            props_eq(r, *self),
    {
        match self {
            NodeProperties::Atom(x) => NodeProperties::Atom(*x),
            NodeProperties::Residue(x) => NodeProperties::Residue(
                ResidueProperties { n_atoms: x.n_atoms, resname: x.resname.clone() },
            ),
            NodeProperties::Chain(x) => NodeProperties::Chain(*x),
            NodeProperties::Structure(x) => NodeProperties::Structure(*x),
            NodeProperties::Result(x) => NodeProperties::Result(
                ResultProperties { classified_by: x.classified_by.clone() },
            ),
        }
    }
}

} // verus!
