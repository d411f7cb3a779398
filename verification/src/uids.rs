use vstd::prelude::*;

use crate::error::FreesasaError;
use crate::error::FreesasaErrorKind;
use crate::node::NodeType;
use crate::text::char_to_string;
use crate::text::i32_to_string;
use crate::text::is_digit;
use crate::text::parse_i32;
use crate::text::spec_int_string;
use crate::text::spec_is_digit;
use crate::text::spec_parse_i32;
use crate::text::spec_trim;
use crate::text::trim_str;

verus! {

/// Identity of a residue: its number and optional insertion code.
pub type ResID = (i32, Option<char>);

/// Stable biological identity of a node: a chain, a residue within its
/// chain, or an atom within its residue. An atom identity always embeds a
/// complete residue identity, which embeds its chain — the type admits no
/// partial identity.
#[derive(Debug)]
pub enum NodeUid {
    Chain { chain: char },
    Residue { chain: char, number: i32, insertion: Option<char> },
    Atom { chain: char, number: i32, insertion: Option<char>, name: String },
}

/// Value equality of identities: structural on every field, with atom names
/// compared by their characters.
pub open spec fn uid_eq(a: NodeUid, b: NodeUid) -> bool {
    match (a, b) {
        (NodeUid::Chain { chain: c1 }, NodeUid::Chain { chain: c2 }) => c1 == c2,
        (
            NodeUid::Residue { chain: c1, number: n1, insertion: i1 },
            NodeUid::Residue { chain: c2, number: n2, insertion: i2 },
        ) => c1 == c2 && n1 == n2 && i1 == i2,
        (
            NodeUid::Atom { chain: c1, number: n1, insertion: i1, name: a1 },
            NodeUid::Atom { chain: c2, number: n2, insertion: i2, name: a2 },
        ) => c1 == c2 && n1 == n2 && i1 == i2 && a1@ == a2@,
        _ => false,
    }
}

/// The node kind an identity belongs to.
pub open spec fn spec_uid_kind(u: NodeUid) -> NodeType {
    match u {
        NodeUid::Chain { .. } => NodeType::Chain,
        NodeUid::Residue { .. } => NodeType::Residue,
        NodeUid::Atom { .. } => NodeType::Atom,
    }
}

/// A chain label is one printable (graphic ASCII) character.
pub open spec fn spec_is_printable(c: char) -> bool {
    33 <= c as int <= 126
}

/// What `parse_chain_label` accepts: exactly one printable character.
pub open spec fn spec_parse_chain_label(s: Seq<char>) -> Option<char> {
    if s.len() == 1 && spec_is_printable(s[0]) {
        Some(s[0])
    } else {
        None
    }
}

/// What `parse_residue_field` reads from a raw residue-number field: the
/// field is trimmed; its last character is an insertion code exactly when it
/// is not a decimal digit; the rest must parse as a signed 32-bit integer.
pub open spec fn spec_parse_residue_field(s: Seq<char>) -> Option<ResID> {
    let t = spec_trim(s);
    if t.len() == 0 {
        None
    } else {
        let numpart = if spec_is_digit(t.last()) {
            t
        } else {
            t.drop_last()
        };
        let insertion = if spec_is_digit(t.last()) {
            None
        } else {
            Some(t.last())
        };
        match spec_parse_i32(numpart) {
            Some(n) => Some((n, insertion)),
            None => None,
        }
    }
}

/// The optional insertion code as rendered in a label.
pub open spec fn spec_insertion_seq(i: Option<char>) -> Seq<char> {
    match i {
        Some(c) => seq![c],
        None => Seq::empty(),
    }
}

/// The textual rendering of an identity: `chain`,
/// `chain:number[insertion]`, or `chain:number[insertion]:atom_name`.
pub open spec fn spec_uid_label(u: NodeUid) -> Seq<char> {
    match u {
        NodeUid::Chain { chain } => seq![chain],
        NodeUid::Residue { chain, number, insertion } => seq![chain, ':'] + spec_int_string(
            number as int,
        ) + spec_insertion_seq(insertion),
        NodeUid::Atom { chain, number, insertion, name } => seq![chain, ':'] + spec_int_string(
            number as int,
        ) + spec_insertion_seq(insertion) + seq![':'] + name@,
    }
}

impl NodeUid {
    /// Assembles an identity from its already-validated parts. Nothing is
    /// returned when an atom name is given without a residue identity, the
    /// one partial combination the parts could express.
    pub fn new(chain: char, res_id: Option<ResID>, atom_name: Option<String>) -> (r: Option<
        NodeUid,
    >)
        ensures
            match (res_id, atom_name) {
                (None, Some(_)) => r is None,
                (None, None) => r == Some(NodeUid::Chain { chain }),
                (Some((n, i)), None) => r == Some(
                    NodeUid::Residue { chain, number: n, insertion: i },
                ),
                (Some((n, i)), Some(a)) => match r {
                    Some(u) => u matches NodeUid::Atom {
                        chain: c2,
                        number: n2,
                        insertion: i2,
                        name: a2,
                    } && c2 == chain && n2 == n && i2 == i && a2@ == a@,
                    None => false,
                },
            },
    {
        match (res_id, atom_name) {
            (None, Some(_)) => None,
            (None, None) => Some(NodeUid::Chain { chain }),
            (Some((n, i)), None) => Some(NodeUid::Residue { chain, number: n, insertion: i }),
            (Some((n, i)), Some(a)) => Some(
                NodeUid::Atom { chain, number: n, insertion: i, name: a },
            ),
        }
    }

    /// Assembles an identity from optional parts, as read off a native node.
    /// Nothing is returned when the parts do not form a complete nesting:
    /// a chain label is always required, and an atom name requires a residue
    /// identity.
    pub fn from_primitive(
        chain: Option<char>,
        res_id: Option<ResID>,
        atom_name: Option<String>,
    ) -> (r: Option<NodeUid>)
        ensures
            match chain {
                None => r is None,
                Some(c) => match (res_id, atom_name) {
                    (None, Some(_)) => r is None,
                    (None, None) => r == Some(NodeUid::Chain { chain: c }),
                    (Some((n, i)), None) => r == Some(
                        NodeUid::Residue { chain: c, number: n, insertion: i },
                    ),
                    (Some((n, i)), Some(a)) => match r {
                        Some(u) => u matches NodeUid::Atom {
                            chain: c2,
                            number: n2,
                            insertion: i2,
                            name: a2,
                        } && c2 == c && n2 == n && i2 == i && a2@ == a@,
                        None => false,
                    },
                },
            },
    {
        match chain {
            None => None,
            Some(c) => Self::new(c, res_id, atom_name),
        }
    }

    /// The identity of a whole chain.
    pub fn for_chain(chain: char) -> (r: NodeUid)
        ensures
            r == (NodeUid::Chain { chain }),
    {
        NodeUid::Chain { chain }
    }

    /// The identity of a residue within an already-validated chain.
    pub fn for_residue(parent: &NodeUid, number: i32, insertion: Option<char>) -> (r: NodeUid)
        requires
            parent matches NodeUid::Chain { .. },
        ensures
            r matches NodeUid::Residue { chain, number: n, insertion: i } && chain
                == parent->Chain_chain && n == number && i == insertion,
    {
        match parent {
            NodeUid::Chain { chain } => NodeUid::Residue { chain: *chain, number, insertion },
            _ => unreached(),
        }
    }

    /// The identity of an atom within an already-validated residue.
    pub fn for_atom(parent: &NodeUid, name: String) -> (r: NodeUid)
        requires
            parent matches NodeUid::Residue { .. },
        ensures
            r matches NodeUid::Atom { chain, number, insertion, name: a } && chain
                == parent->Residue_chain && number == parent->Residue_number && insertion
                == parent->Residue_insertion && a@ == name@,
    {
        match parent {
            NodeUid::Residue { chain, number, insertion } => NodeUid::Atom {
                chain: *chain,
                number: *number,
                insertion: *insertion,
                name,
            },
            _ => unreached(),
        }
    }

    /// Validates a raw chain label: exactly one printable character.
    pub fn parse_chain_label(raw: &str) -> (r: Result<char, FreesasaError>)
        ensures
            match r {
                Ok(c) => spec_parse_chain_label(raw@) == Some(c),
                Err(e) => spec_parse_chain_label(raw@) is None && e.kind == Some(
                    FreesasaErrorKind::InvalidChainLabel,
                ),
            },
    {
        if raw.unicode_len() != 1 {
            return Err(
                FreesasaError::new(
                    "chain label must be exactly one character",
                    Some(FreesasaErrorKind::InvalidChainLabel),
                    None,
                ),
            );
        }
        let c = raw.get_char(0);
        let code = c as u32;
        if 33 <= code && code <= 126 {
            Ok(c)
        } else {
            Err(
                FreesasaError::new(
                    "chain label must be printable",
                    Some(FreesasaErrorKind::InvalidChainLabel),
                    None,
                ),
            )
        }
    }

    /// Parses a raw residue-number field into a number and optional
    /// insertion code, per the trailing-character rule.
    pub fn parse_residue_field(raw: &str) -> (r: Result<ResID, FreesasaError>)
        ensures
            match r {
                Ok(rid) => spec_parse_residue_field(raw@) == Some(rid),
                Err(e) => spec_parse_residue_field(raw@) is None && e.kind == Some(
                    FreesasaErrorKind::InvalidResidueNumber,
                ),
            },
    {
        let t = trim_str(raw);
        let n = t.as_str().unicode_len();
        if n == 0 {
            return Err(
                FreesasaError::new(
                    "residue-number field is empty",
                    Some(FreesasaErrorKind::InvalidResidueNumber),
                    None,
                ),
            );
        }
        let last = t.as_str().get_char(n - 1);
        let (numpart, insertion): (&str, Option<char>) = if is_digit(last) {
            (t.as_str(), None)
        } else {
            (t.as_str().substring_char(0, n - 1), Some(last))
        };
        proof {
            assert(spec_trim(raw@).drop_last() =~= t@.subrange(0, n - 1));
        }
        match parse_i32(numpart) {
            Some(v) => Ok((v, insertion)),
            None => Err(
                FreesasaError::new(
                    "residue number did not parse as an integer",
                    Some(FreesasaErrorKind::InvalidResidueNumber),
                    None,
                ),
            ),
        }
    }

    /// The kind of node this identity names.
    pub fn kind(&self) -> (r: NodeType)
        ensures
            r == spec_uid_kind(*self),
    {
        match self {
            NodeUid::Chain { .. } => NodeType::Chain,
            NodeUid::Residue { .. } => NodeType::Residue,
            NodeUid::Atom { .. } => NodeType::Atom,
        }
    }

    /// The chain label the identity lies on.
    pub fn chain(&self) -> (r: char)
        ensures
            r == match *self {
                NodeUid::Chain { chain } => chain,
                NodeUid::Residue { chain, .. } => chain,
                NodeUid::Atom { chain, .. } => chain,
            },
    {
        match self {
            NodeUid::Chain { chain } => *chain,
            NodeUid::Residue { chain, .. } => *chain,
            NodeUid::Atom { chain, .. } => *chain,
        }
    }

    /// The residue number and insertion code, for residue and atom
    /// identities.
    pub fn res_id(&self) -> (r: Option<ResID>)
        ensures
            r == match *self {
                NodeUid::Chain { .. } => None::<ResID>,
                NodeUid::Residue { number, insertion, .. } => Some((number, insertion)),
                NodeUid::Atom { number, insertion, .. } => Some((number, insertion)),
            },
    {
        match self {
            NodeUid::Chain { .. } => None,
            NodeUid::Residue { number, insertion, .. } => Some((*number, *insertion)),
            NodeUid::Atom { number, insertion, .. } => Some((*number, *insertion)),
        }
    }

    /// The atom name, for atom identities.
    pub fn atom_name(&self) -> (r: Option<&str>)
        ensures
            match *self {
                NodeUid::Atom { name, .. } => r matches Some(s) && s@ == name@,
                _ => r is None,
            },
    {
        match self {
            NodeUid::Atom { name, .. } => Some(name.as_str()),
            _ => None,
        }
    }

    /// A value-equal copy of the identity.
    pub fn duplicate(&self) -> (r: NodeUid)
        ensures
            uid_eq(r, *self),
            spec_uid_kind(r) == spec_uid_kind(*self),
    {
        match self {
            NodeUid::Chain { chain } => NodeUid::Chain { chain: *chain },
            NodeUid::Residue { chain, number, insertion } => NodeUid::Residue {
                chain: *chain,
                number: *number,
                insertion: *insertion,
            },
            NodeUid::Atom { chain, number, insertion, name } => NodeUid::Atom {
                chain: *chain,
                number: *number,
                insertion: *insertion,
                name: name.clone(),
            },
        }
    }

    /// Value equality with another identity.
    pub fn equals(&self, other: &NodeUid) -> (r: bool)
        ensures
            r == uid_eq(*self, *other),
    {
        match (self, other) {
            (NodeUid::Chain { chain: c1 }, NodeUid::Chain { chain: c2 }) => *c1 == *c2,
            (
                NodeUid::Residue { chain: c1, number: n1, insertion: i1 },
                NodeUid::Residue { chain: c2, number: n2, insertion: i2 },
            ) => *c1 == *c2 && *n1 == *n2 && option_char_eq(i1, i2),
            (
                NodeUid::Atom { chain: c1, number: n1, insertion: i1, name: a1 },
                NodeUid::Atom { chain: c2, number: n2, insertion: i2, name: a2 },
            ) => *c1 == *c2 && *n1 == *n2 && option_char_eq(i1, i2) && string_eq(a1, a2),
            _ => false,
        }
    }

    /// Renders the identity as text: `chain`, `chain:number[insertion]` or
    /// `chain:number[insertion]:atom_name`.
    pub fn to_label(&self) -> (r: String)
        ensures
            r@ == spec_uid_label(*self),
    {
        match self {
            NodeUid::Chain { chain } => {
                let r = char_to_string(*chain);
                proof {
                    assert(r@ =~= spec_uid_label(*self));
                }
                r
            },
            NodeUid::Residue { chain, number, insertion } => {
                let mut r = char_to_string(*chain);
                r.append(":");
                let num = i32_to_string(*number);
                r.append(num.as_str());
                match insertion {
                    Some(c) => {
                        let ins = char_to_string(*c);
                        r.append(ins.as_str());
                    },
                    None => {},
                }
                proof {
                    reveal_strlit(":");
                    assert(r@ =~= spec_uid_label(*self));
                }
                r
            },
            NodeUid::Atom { chain, number, insertion, name } => {
                let mut r = char_to_string(*chain);
                r.append(":");
                let num = i32_to_string(*number);
                r.append(num.as_str());
                match insertion {
                    Some(c) => {
                        let ins = char_to_string(*c);
                        r.append(ins.as_str());
                    },
                    None => {},
                }
                r.append(":");
                r.append(name.as_str());
                proof {
                    reveal_strlit(":");
                    assert(r@ =~= spec_uid_label(*self));
                }
                r
            },
        }
    }
}

fn option_char_eq(a: &Option<char>, b: &Option<char>) -> (r: bool)
    ensures
        r == (*a == *b),
{
    match (a, b) {
        (Some(x), Some(y)) => *x == *y,
        (None, None) => true,
        _ => false,
    }
}

fn string_eq(a: &String, b: &String) -> (r: bool)
    ensures
        r == (a@ == b@),
{
    a.eq(b)
}

} // verus!
