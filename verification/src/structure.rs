use vstd::prelude::*;

use crate::error::FreesasaError;
use crate::error::FreesasaErrorKind;
use crate::text::i32_to_string;
use crate::text::spec_int_string;

verus! {

/// The engine's option bit for including HETATM entries.
pub const FS_OPT_INCLUDE_HETATM: u32 = 1;

/// The engine's option bit for including hydrogen atoms.
pub const FS_OPT_INCLUDE_HYDROGEN: u32 = 4;

/// The engine's option bit for reading models as separate structures.
pub const FS_OPT_SEPARATE_MODELS: u32 = 8;

/// The engine's option bit for reading chains as separate structures.
pub const FS_OPT_SEPARATE_CHAINS: u32 = 16;

/// The engine's option bit for reading models as one structure.
pub const FS_OPT_JOIN_MODELS: u32 = 32;

/// The engine's option bit for halting at an unknown atom.
pub const FS_OPT_HALT_AT_UNKNOWN: u32 = 64;

/// The engine's option bit for skipping unknown atoms.
pub const FS_OPT_SKIP_UNKNOWN: u32 = 128;

/// The engine's option bit for reading radii from the occupancy field.
pub const FS_OPT_RADIUS_FROM_OCCUPANCY: u32 = 256;

/// The bit field the engine is handed for a chosen set of loading options.
pub open spec fn spec_options_bits(
    include_hetatm: bool,
    include_hydrogen: bool,
    separate_models: bool,
    separate_chains: bool,
    join_models: bool,
    halt_at_unknown: bool,
    skip_unknown: bool,
    radius_from_occupancy: bool,
) -> u32 {
    (if include_hetatm {
        FS_OPT_INCLUDE_HETATM
    } else {
        0
    }) | (if include_hydrogen {
        FS_OPT_INCLUDE_HYDROGEN
    } else {
        0
    }) | (if separate_models {
        FS_OPT_SEPARATE_MODELS
    } else {
        0
    }) | (if separate_chains {
        FS_OPT_SEPARATE_CHAINS
    } else {
        0
    }) | (if join_models {
        FS_OPT_JOIN_MODELS
    } else {
        0
    }) | (if halt_at_unknown {
        FS_OPT_HALT_AT_UNKNOWN
    } else {
        0
    }) | (if skip_unknown {
        FS_OPT_SKIP_UNKNOWN
    } else {
        0
    }) | (if radius_from_occupancy {
        FS_OPT_RADIUS_FROM_OCCUPANCY
    } else {
        0
    })
}

/// The loading options handed to the engine when a structure is read,
/// packed as the engine's option bit field.
#[derive(Debug, Clone, Copy, PartialEq, Eq, Structural)]
pub struct StructureOptions {
    pub bitfield: u32,
}

impl StructureOptions {
    /// Packs the chosen options into the engine's bit field.
    pub fn new(
        include_hetatm: bool,
        include_hydrogen: bool,
        separate_models: bool,
        separate_chains: bool,
        join_models: bool,
        halt_at_unknown: bool,
        skip_unknown: bool,
        radius_from_occupancy: bool,
    ) -> (r: StructureOptions)
        ensures
            r.bitfield == spec_options_bits(
                include_hetatm,
                include_hydrogen,
                separate_models,
                separate_chains,
                join_models,
                halt_at_unknown,
                skip_unknown,
                radius_from_occupancy,
            ),
    {
        let bitfield: u32 = (if include_hetatm {
            FS_OPT_INCLUDE_HETATM
        } else {
            0
        }) | (if include_hydrogen {
            FS_OPT_INCLUDE_HYDROGEN
        } else {
            0
        }) | (if separate_models {
            FS_OPT_SEPARATE_MODELS
        } else {
            0
        }) | (if separate_chains {
            FS_OPT_SEPARATE_CHAINS
        } else {
            0
        }) | (if join_models {
            FS_OPT_JOIN_MODELS
        } else {
            0
        }) | (if halt_at_unknown {
            FS_OPT_HALT_AT_UNKNOWN
        } else {
            0
        }) | (if skip_unknown {
            FS_OPT_SKIP_UNKNOWN
        } else {
            0
        }) | (if radius_from_occupancy {
            FS_OPT_RADIUS_FROM_OCCUPANCY
        } else {
            0
        });
        StructureOptions { bitfield }
    }
}

impl Default for StructureOptions {
    /// No option bits set.
    fn default() -> (r: StructureOptions)
        ensures
            r.bitfield == 0,
    {
        StructureOptions { bitfield: 0 }
    }
}

/// A structure's name and loading options, collected before the native
/// structure is created.
#[derive(Debug)]
pub struct StructureBuilder {
    pub name: String,
    pub options: Option<StructureOptions>,
}

// ---------------------------------------------------------------------------
// Plain-text helpers for loading structures
// ---------------------------------------------------------------------------
/// The index just after the last `/` of a path, or zero.
pub open spec fn spec_last_slash_end(s: Seq<char>) -> int
    decreases s.len(),
{
    if s.len() == 0 {
        0
    } else if s.last() == '/' {
        s.len() as int
    } else {
        spec_last_slash_end(s.drop_last())
    }
}

/// The index of the first `.` at or after `i`, or the length.
pub open spec fn spec_first_dot_from(s: Seq<char>, i: int) -> int
    decreases s.len() - i,
{
    if i < 0 || i >= s.len() {
        s.len() as int
    } else if s[i] == '.' {
        i
    } else {
        spec_first_dot_from(s, i + 1)
    }
}

/// The structure name a path yields: the last path segment up to its first
/// dot.
pub open spec fn spec_pdb_name(s: Seq<char>) -> Seq<char> {
    let start = spec_last_slash_end(s);
    s.subrange(start, spec_first_dot_from(s, start))
}

proof fn lemma_last_slash_at(s: Seq<char>, k: int)
    requires
        0 <= k <= s.len(),
        forall|j: int| k <= j < s.len() ==> s[j] != '/',
        k > 0 ==> s[k - 1] == '/',
    ensures
        spec_last_slash_end(s) == k,
    decreases s.len(),
{
    if s.len() == 0 {
    } else if s.last() == '/' {
        assert(k == s.len());
    } else {
        let t = s.drop_last();
        assert(forall|j: int| 0 <= j < t.len() ==> #[trigger] t[j] == s[j]);
        if k == s.len() {
            assert(s[k - 1] != '/');
            assert(false);
        }
        lemma_last_slash_at(t, k);
    }
}

proof fn lemma_first_dot_at(s: Seq<char>, start: int, e: int)
    requires
        0 <= start <= e <= s.len(),
        forall|j: int| start <= j < e ==> s[j] != '.',
        e < s.len() ==> s[e] == '.',
    ensures
        spec_first_dot_from(s, start) == e,
    decreases e - start,
{
    if start < e {
        lemma_first_dot_at(s, start + 1, e);
    }
}

/// The name a structure takes from the path it was loaded from: the last
/// path segment, cut at its first dot.
pub fn pdb_name_from_path(path: &str) -> (r: String)
    ensures
        r@ == spec_pdb_name(path@),
{
    let n = path.unicode_len();
    let mut start: usize = n;
    while start > 0 && path.get_char(start - 1) != '/'
        invariant
            start <= n,
            n == path@.len(),
            forall|j: int| start <= j < n ==> path@[j] != '/',
        decreases start,
    {
        start -= 1;
    }
    proof {
        lemma_last_slash_at(path@, start as int);
    }
    let mut end: usize = start;
    while end < n && path.get_char(end) != '.'
        invariant
            start <= end <= n,
            n == path@.len(),
            forall|j: int| start <= j < end ==> path@[j] != '.',
        decreases n - end,
    {
        end += 1;
    }
    proof {
        lemma_first_dot_at(path@, start as int, end as int);
    }
    let piece = path.substring_char(start, end);
    piece.to_owned()
}

/// Whether a string can cross into C: no NUL character anywhere.
pub open spec fn spec_c_string_safe(s: Seq<char>) -> bool {
    forall|i: int| 0 <= i < s.len() ==> s[i] != '\u{0}'
}

/// Checks that a string holds no NUL byte, the one thing that cannot be
/// handed to the engine as a C string.
pub fn validate_c_string(s: &str) -> (r: Result<(), FreesasaError>)
    ensures
        r is Ok <==> spec_c_string_safe(s@),
        r matches Err(e) ==> e.kind == Some(FreesasaErrorKind::NullNativeField),
{
    let n = s.unicode_len();
    let mut i: usize = 0;
    while i < n
        invariant
            i <= n,
            n == s@.len(),
            forall|j: int| 0 <= j < i ==> s@[j] != '\u{0}',
        decreases n - i,
    {
        if s.get_char(i) == '\u{0}' {
            return Err(
                FreesasaError::new(
                    "string holds a NUL byte and cannot cross into C",
                    Some(FreesasaErrorKind::NullNativeField),
                    None,
                ),
            );
        }
        i += 1;
    }
    Ok(())
}

/// The ASCII code of a character, when it has one; the engine takes chain
/// labels as single C characters.
pub fn char_to_c_char(c: char) -> (r: Result<u8, FreesasaError>)
    ensures
        c as int <= 127 ==> r == Ok::<u8, FreesasaError>((c as int) as u8),
        c as int > 127 ==> (r matches Err(e) && e.kind == Some(
            FreesasaErrorKind::InvalidChainLabel,
        )),
{
    let code = c as u32;
    if code <= 127 {
        Ok(code as u8)
    } else {
        Err(
            FreesasaError::new(
                "chain label is not an ASCII character",
                Some(FreesasaErrorKind::InvalidChainLabel),
                None,
            ),
        )
    }
}

/// The raw residue-number field for a residue read from a parsed structure:
/// the number in decimal, then the insertion code, if any.
pub fn compose_residue_field(number: i32, insertion: Option<&str>) -> (r: String)
    ensures
        r@ == spec_int_string(number as int) + match insertion {
            Some(ic) => ic@,
            None => Seq::empty(),
        },
{
    let mut r = i32_to_string(number);
    match insertion {
        Some(ic) => {
            r.append(ic);
        },
        None => {
            proof {
                assert(r@ =~= spec_int_string(number as int) + Seq::<char>::empty());
            }
        },
    }
    r
}

} // verus!
