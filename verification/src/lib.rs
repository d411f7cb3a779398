//! Verified core of a solvent-accessible-surface-area (SASA) toolkit.
//!
//! The native geometry engine computes areas for a parsed molecular
//! structure and hands back an ephemeral, pointer-linked result tree. The
//! embedding program walks that tree once and copies it into plain
//! [`raw::RawNode`] values; everything after that point is verified here:
//! parsing stable biological identities (chain, residue, atom), building an
//! owned [`tree::SasaTree`] keyed by identity, comparing two such trees by
//! identity rather than position, and the sibling-level difference report of
//! [`fs_tree::FSResultTree`]. Areas are fixed-point integers in the unit the
//! caller chose when converting the engine's floating-point output.

use vstd::prelude::*;

pub mod area;
pub mod error;
pub mod fs_tree;
pub mod laws;
pub mod node;
pub mod properties;
pub mod raw;
pub mod structure;
pub mod text;
pub mod tree;
pub mod uids;

pub use area::AREA_LIMIT;
pub use area::NodeArea;
pub use area::area_bounded;
pub use error::FreesasaError;
pub use error::FreesasaErrorKind;
pub use fs_tree::FSResultTree;
pub use fs_tree::interpret_join_code;
pub use node::Node;
pub use node::NodeLevel;
pub use node::NodeType;
pub use properties::AtomProperties;
pub use properties::ChainProperties;
pub use properties::NodeProperties;
pub use properties::ResidueProperties;
pub use properties::ResultProperties;
pub use properties::StructureProperties;
pub use raw::RawNode;
pub use structure::StructureBuilder;
pub use structure::StructureOptions;
pub use tree::SasaTree;
pub use uids::NodeUid;
pub use uids::ResID;

verus! {

/// The engine's code for printing all errors and warnings.
pub const FS_VERBOSITY_NORMAL: u32 = 0;

/// The engine's code for printing errors only.
pub const FS_VERBOSITY_NOWARNINGS: u32 = 1;

/// The engine's code for printing nothing.
pub const FS_VERBOSITY_SILENT: u32 = 2;

/// The engine's code for printing debug output too.
pub const FS_VERBOSITY_DEBUG: u32 = 3;

/// How much the native geometry engine is allowed to print.
#[derive(Debug, Clone, Copy, PartialEq, Eq, Structural)]
pub enum FreesasaVerbosity {
    Debug,
    Info,
    Error,
    Silent,
}

/// The engine's code for a verbosity level; the embedding program hands it
/// to the engine's verbosity call.
pub fn verbosity_code(v: FreesasaVerbosity) -> (r: u32)
    ensures
        r == match v {
            FreesasaVerbosity::Debug => FS_VERBOSITY_DEBUG,
            FreesasaVerbosity::Info => FS_VERBOSITY_NORMAL,
            FreesasaVerbosity::Error => FS_VERBOSITY_NOWARNINGS,
            FreesasaVerbosity::Silent => FS_VERBOSITY_SILENT,
        },
{
    match v {
        FreesasaVerbosity::Debug => FS_VERBOSITY_DEBUG,
        FreesasaVerbosity::Info => FS_VERBOSITY_NORMAL,
        FreesasaVerbosity::Error => FS_VERBOSITY_NOWARNINGS,
        FreesasaVerbosity::Silent => FS_VERBOSITY_SILENT,
    }
}

} // verus!
