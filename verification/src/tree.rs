use vstd::prelude::*;

use crate::area::NodeArea;
use crate::area::area_bounded;
use crate::error::FreesasaError;
use crate::error::FreesasaErrorKind;
use crate::node::Node;
use crate::node::NodeType;
use crate::node::node_eq;
use crate::properties::AtomProperties;
use crate::properties::ChainProperties;
use crate::properties::NodeProperties;
use crate::properties::ResidueProperties;
use crate::properties::StructureProperties;
use crate::raw::RawNode;
use crate::uids::NodeUid;
use crate::uids::spec_parse_chain_label;
use crate::uids::spec_parse_residue_field;
use crate::uids::uid_eq;

verus! {

/// An owned result tree: a node and its children, keyed by identity.
/// The children's identities are unique by construction; their order is the
/// native sibling order.
#[derive(Debug)]
pub struct SasaTree {
    pub node: Node,
    pub children: Vec<SasaTree>,
}

/// Where a node sits in the hierarchy: at the top (a structure node), under
/// the structure (a chain), under a chain (a residue), or under a residue
/// (an atom). The scope carries the identity fields a child inherits.
#[derive(Debug, Clone, Copy, PartialEq, Eq, Structural)]
pub enum Scope {
    Top,
    InStructure,
    InChain(char),
    InResidue(char, i32, Option<char>),
}

/// The kind and identity a well-formed node must have at a given scope.
pub open spec fn node_scope_ok(scope: Scope, n: Node) -> bool {
    match scope {
        Scope::Top => n.nodetype == NodeType::Structure && n.uid is None,
        Scope::InStructure => n.nodetype == NodeType::Chain && (n.uid matches Some(
            NodeUid::Chain { .. },
        )),
        Scope::InChain(c) => n.nodetype == NodeType::Residue && (n.uid matches Some(
            NodeUid::Residue { chain, .. },
        ) && chain == c),
        Scope::InResidue(c, num, ins) => n.nodetype == NodeType::Atom && (n.uid matches Some(
            NodeUid::Atom { chain, number, insertion, .. },
        ) && chain == c && number == num && insertion == ins),
    }
}

/// The scope a node's children live in.
pub open spec fn scope_of(n: Node) -> Scope {
    match n.uid {
        None => Scope::InStructure,
        Some(NodeUid::Chain { chain }) => Scope::InChain(chain),
        Some(NodeUid::Residue { chain, number, insertion }) => Scope::InResidue(
            chain,
            number,
            insertion,
        ),
        Some(NodeUid::Atom { .. }) => Scope::Top,
    }
}

/// Whether two optional identities are both present and value-equal.
pub open spec fn uid_opt_eq(a: Option<NodeUid>, b: Option<NodeUid>) -> bool {
    a matches Some(x) && b matches Some(y) && uid_eq(x, y)
}

/// Well-formedness of a tree at a scope: the node fits the scope, carries a
/// bounded area, atoms are leaves, children are well-formed one scope below,
/// and sibling identities never collide.
pub open spec fn wf_in(scope: Scope, t: SasaTree) -> bool
    decreases t,
{
    &&& node_scope_ok(scope, t.node)
    &&& t.node.area matches Some(a) && area_bounded(a)
    &&& t.node.nodetype == NodeType::Atom ==> t.children@.len() == 0
    &&& (forall|i: int|
        0 <= i < t.children@.len() ==> wf_in(scope_of(t.node), #[trigger] t.children@[i]))
    &&& (forall|i: int, j: int|
        0 <= i < j < t.children@.len() ==> !uid_opt_eq(
            #[trigger] t.children@[i].node.uid,
            #[trigger] t.children@[j].node.uid,
        ))
}

/// Well-formedness of a whole owned tree, rooted at a structure node.
pub open spec fn wf_tree(t: SasaTree) -> bool {
    wf_in(Scope::Top, t)
}

/// All nodes of the tree, depth-first, the node before its children.
pub open spec fn spec_nodes(t: SasaTree) -> Seq<Node>
    decreases t,
{
    seq![t.node] + spec_forest_nodes(t.children@)
}

/// All nodes of a forest, depth-first, left to right.
pub open spec fn spec_forest_nodes(f: Seq<SasaTree>) -> Seq<Node>
    decreases f,
{
    if f.len() == 0 {
        Seq::empty()
    } else {
        spec_nodes(f[0]) + spec_forest_nodes(f.drop_first())
    }
}

/// Pointwise value equality of node sequences.
pub open spec fn nodes_eq_seq(a: Seq<Node>, b: Seq<Node>) -> bool {
    a.len() == b.len() && forall|i: int| 0 <= i < a.len() ==> node_eq(#[trigger] a[i], b[i])
}

pub proof fn lemma_forest_nodes_concat(a: Seq<SasaTree>, b: Seq<SasaTree>)
    ensures
        spec_forest_nodes(a + b) == spec_forest_nodes(a) + spec_forest_nodes(b),
    decreases a,
{
    if a.len() == 0 {
        assert(a + b =~= b);
        assert(spec_forest_nodes(a) + spec_forest_nodes(b) =~= spec_forest_nodes(b));
    } else {
        assert((a + b).drop_first() =~= a.drop_first() + b);
        lemma_forest_nodes_concat(a.drop_first(), b);
        assert((a + b)[0] == a[0]);
        assert(spec_forest_nodes(a + b) =~= spec_forest_nodes(a) + spec_forest_nodes(b));
    }
}

pub proof fn lemma_forest_nodes_take_step(f: Seq<SasaTree>, i: int)
    requires
        0 <= i < f.len(),
    ensures
        spec_forest_nodes(f.take(i + 1)) == spec_forest_nodes(f.take(i)) + spec_nodes(f[i]),
{
    assert(f.take(i + 1) =~= f.take(i) + seq![f[i]]);
    lemma_forest_nodes_concat(f.take(i), seq![f[i]]);
    let s1 = seq![f[i]];
    assert(s1.len() == 1);
    assert(s1[0] == f[i]);
    assert(s1.drop_first() =~= Seq::<SasaTree>::empty());
    assert(spec_forest_nodes(s1.drop_first()) =~= Seq::<Node>::empty());
    assert(spec_nodes(f[i]) + Seq::<Node>::empty() =~= spec_nodes(f[i]));
    assert(spec_forest_nodes(s1) =~= spec_nodes(f[i]));
}

impl SasaTree {
    /// The node at the root of this (sub)tree.
    pub fn node(&self) -> (r: &Node)
        ensures
            *r == self.node,
    {
        &self.node
    }

    /// The child subtrees, keyed by their root nodes' identities.
    pub fn child_map(&self) -> (r: &Vec<SasaTree>)
        ensures
            *r == self.children,
    {
        &self.children
    }

    /// Copies of all nodes in the tree, depth-first, each node before its
    /// children.
    pub fn nodes(&self) -> (r: Vec<Node>)
        ensures
            nodes_eq_seq(r@, spec_nodes(*self)),
        decreases *self,
    {
        let mut out: Vec<Node> = Vec::new();
        out.push(self.node.duplicate());
        let n = self.children.len();
        let mut i: usize = 0;
        while i < n
            invariant
                i <= n,
                n == self.children@.len(),
                nodes_eq_seq(
                    out@,
                    seq![self.node] + spec_forest_nodes(self.children@.take(i as int)),
                ),
            decreases n - i,
        {
            proof {
                assert(decreases_to!(*self => self.children@[i as int]));
            }
            let mut sub = self.children[i].nodes();
            proof {
                lemma_forest_nodes_take_step(self.children@, i as int);
            }
            out.append(&mut sub);
            i += 1;
        }
        proof {
            assert(self.children@.take(n as int) =~= self.children@);
        }
        out
    }
}

/// Replaces the child with the same identity, or appends when none matches.
/// Mirrors keyed-map insertion on the identity of the subtree's root.
pub open spec fn spec_insert_child(kids: Seq<SasaTree>, c: SasaTree) -> Seq<SasaTree> {
    if exists|j: int| 0 <= j < kids.len() && uid_opt_eq(#[trigger] kids[j].node.uid, c.node.uid) {
        let j = choose|j: int|
            0 <= j < kids.len() && uid_opt_eq(#[trigger] kids[j].node.uid, c.node.uid);
        kids.update(j, c)
    } else {
        kids.push(c)
    }
}

// ---------------------------------------------------------------------------
// Building an owned tree from a raw native tree
// ---------------------------------------------------------------------------
/// The failure classes tree building reports: a missing required field, an
/// unparseable identity, or a native tree whose shape or values are not
/// those of a result hierarchy.
pub open spec fn build_error_kind(e: FreesasaError) -> bool {
    ||| e.kind == Some(FreesasaErrorKind::NullNativeField)
    ||| e.kind == Some(FreesasaErrorKind::InvalidChainLabel)
    ||| e.kind == Some(FreesasaErrorKind::InvalidResidueNumber)
    ||| e.kind == Some(FreesasaErrorKind::NativeTreeConstructionFailed)
}

/// Whether one raw node carries what its scope needs: an in-range area, the
/// kind the scope dictates, and parseable identity fields.
pub open spec fn spec_buildable_node(scope: Scope, raw: RawNode) -> bool {
    &&& raw.area matches Some(a) && area_bounded(a)
    &&& match scope {
        Scope::Top => raw.kind == NodeType::Structure,
        Scope::InStructure => raw.kind == NodeType::Chain && (raw.name matches Some(l)
            && spec_parse_chain_label(l@) is Some),
        Scope::InChain(_) => raw.kind == NodeType::Residue && raw.name is Some && (
        raw.residue_number matches Some(num) && spec_parse_residue_field(num@) is Some),
        Scope::InResidue(_, _, _) => raw.kind == NodeType::Atom && raw.name is Some,
    }
}

/// How the owned node built from a raw node at a scope relates to it: same
/// area, the identity parsed from the raw fields and inherited from the
/// scope, and the kind-specific properties copied over.
pub open spec fn spec_built_node(scope: Scope, model: i32, raw: RawNode, n: Node) -> bool {
    &&& n.area == raw.area
    &&& match scope {
        Scope::Top => {
            &&& n.nodetype == NodeType::Structure
            &&& n.uid is None
            &&& n.properties matches Some(NodeProperties::Structure(p)) && p.n_atoms == raw.n_atoms
        },
        Scope::InStructure => {
            &&& n.nodetype == NodeType::Chain
            &&& raw.name matches Some(l) && spec_parse_chain_label(l@) matches Some(c) && n.uid
                == Some(NodeUid::Chain { chain: c }) && (n.properties matches Some(
                NodeProperties::Chain(p),
            ) && p.id == c && p.n_residues == raw.n_residues && p.structure == model)
        },
        Scope::InChain(c) => {
            &&& n.nodetype == NodeType::Residue
            &&& raw.residue_number matches Some(num) && spec_parse_residue_field(num@) matches Some(
                rid,
            ) && n.uid == Some(NodeUid::Residue { chain: c, number: rid.0, insertion: rid.1 })
            &&& raw.name matches Some(nm) && (n.properties matches Some(NodeProperties::Residue(p))
                && p.n_atoms == raw.n_atoms && p.resname@ == nm@)
        },
        Scope::InResidue(c, num, ins) => {
            &&& n.nodetype == NodeType::Atom
            &&& raw.name matches Some(nm) && (n.uid matches Some(
                NodeUid::Atom { chain, number, insertion, name },
            ) && chain == c && number == num && insertion == ins && name@ == nm@)
            &&& n.properties matches Some(NodeProperties::Atom(p)) && p == (AtomProperties {
                is_polar: raw.is_polar,
                is_bb: raw.is_bb,
                radius: raw.radius,
            })
        },
    }
}

/// The scope the children of a raw node will live in, per its parsed
/// identity.
pub open spec fn spec_child_scope(scope: Scope, raw: RawNode) -> Scope {
    match scope {
        Scope::Top => Scope::InStructure,
        Scope::InStructure => match raw.name {
            Some(l) => match spec_parse_chain_label(l@) {
                Some(c) => Scope::InChain(c),
                None => Scope::Top,
            },
            None => Scope::Top,
        },
        Scope::InChain(c) => match raw.residue_number {
            Some(num) => match spec_parse_residue_field(num@) {
                Some(rid) => Scope::InResidue(c, rid.0, rid.1),
                None => Scope::Top,
            },
            None => Scope::Top,
        },
        Scope::InResidue(_, _, _) => Scope::Top,
    }
}

/// The model number the children of a raw node inherit: a structure node
/// sets it, every other node passes it on.
pub open spec fn spec_child_model(model: i32, raw: RawNode) -> i32 {
    if raw.kind == NodeType::Structure {
        raw.model
    } else {
        model
    }
}

/// Whether a whole raw subtree can be built at a scope, down to the `depth`
/// kind: the node itself is buildable, and unless it is the depth kind (or
/// an atom, which must then be a leaf) so is every child, one scope below.
pub open spec fn spec_buildable(scope: Scope, raw: RawNode, depth: NodeType) -> bool
    decreases raw,
{
    &&& spec_buildable_node(scope, raw)
    &&& if raw.kind == depth {
        true
    } else if raw.kind == NodeType::Atom {
        raw.children@.len() == 0
    } else {
        forall|i: int|
            0 <= i < raw.children@.len() ==> spec_buildable(
                spec_child_scope(scope, raw),
                #[trigger] raw.children@[i],
                depth,
            )
    }
}

/// How a built tree relates to the raw subtree it came from: the root node
/// is built from the raw node, and the children are the children's built
/// trees inserted left to right into an identity-keyed list (a later sibling
/// with a colliding identity replaces the earlier one).
pub open spec fn builds(scope: Scope, model: i32, raw: RawNode, depth: NodeType, t: SasaTree) -> bool
    decreases raw,
{
    &&& spec_built_node(scope, model, raw, t.node)
    &&& if raw.kind == depth || raw.kind == NodeType::Atom {
        t.children@.len() == 0
    } else {
        builds_forest(
            spec_child_scope(scope, raw),
            spec_child_model(model, raw),
            raw.children@,
            depth,
            t.children@,
        )
    }
}

/// The keyed-insertion fold of `builds` across a sibling list.
pub open spec fn builds_forest(
    scope: Scope,
    model: i32,
    raws: Seq<RawNode>,
    depth: NodeType,
    kids: Seq<SasaTree>,
) -> bool
    decreases raws,
{
    if raws.len() == 0 {
        kids.len() == 0
    } else {
        exists|prev: Seq<SasaTree>, c: SasaTree|
            {
                &&& builds_forest(scope, model, raws.drop_last(), depth, prev)
                &&& builds(scope, model, raws.last(), depth, c)
                &&& kids == #[trigger] spec_insert_child(prev, c)
            }
    }
}

/// All identities in a child list present and pairwise distinct.
pub open spec fn kids_keyed(kids: Seq<SasaTree>) -> bool {
    &&& forall|i: int| 0 <= i < kids.len() ==> (#[trigger] kids[i].node.uid) is Some
    &&& forall|i: int, j: int|
        0 <= i < j < kids.len() ==> !uid_opt_eq(
            #[trigger] kids[i].node.uid,
            #[trigger] kids[j].node.uid,
        )
}

fn area_checked(raw: &RawNode) -> (r: Result<NodeArea, FreesasaError>)
    ensures
        match r {
            Ok(a) => raw.area == Some(a) && area_bounded(a),
            Err(e) => !(raw.area matches Some(a) && area_bounded(a)) && (e.kind == Some(
                FreesasaErrorKind::NullNativeField,
            ) || e.kind == Some(FreesasaErrorKind::NativeTreeConstructionFailed)),
        },
{
    match raw.area {
        Some(a) => {
            if a.in_bounds() {
                Ok(a)
            } else {
                Err(
                    FreesasaError::new(
                        "node area is out of the range the library computes with",
                        Some(FreesasaErrorKind::NativeTreeConstructionFailed),
                        None,
                    ),
                )
            }
        },
        None => Err(
            FreesasaError::new(
                "node had no area",
                Some(FreesasaErrorKind::NullNativeField),
                None,
            ),
        ),
    }
}

fn opt_str(s: &Option<String>) -> (r: Option<&str>)
    ensures
        match s {
            Some(x) => r matches Some(y) && y@ == x@,
            None => r is None,
        },
{
    match s {
        Some(x) => Some(x.as_str()),
        None => None,
    }
}

/// Builds the owned node for one raw node at its scope. Every failure is a
/// value: an unexpected kind or an out-of-range area is a construction
/// error, a missing field a null-field error, and a bad identity field a
/// parse error.
fn build_node(scope: Scope, model: i32, raw: &RawNode) -> (r: Result<Node, FreesasaError>)
    ensures
        match r {
            Ok(n) => spec_buildable_node(scope, *raw) && spec_built_node(scope, model, *raw, n),
            Err(e) => !spec_buildable_node(scope, *raw) && build_error_kind(e),
        },
{
    let area = match area_checked(raw) {
        Ok(a) => a,
        Err(e) => {
            return Err(e);
        },
    };
    match scope {
        Scope::Top => {
            if raw.kind != NodeType::Structure {
                return Err(kind_error());
            }
            let props = StructureProperties::new(raw.n_atoms);
            Ok(Node::new(NodeType::Structure, Some(NodeProperties::Structure(props)), Some(area), None))
        },
        Scope::InStructure => {
            if raw.kind != NodeType::Chain {
                return Err(kind_error());
            }
            let props = match ChainProperties::new(raw.n_residues, opt_str(&raw.name), Some(model)) {
                Ok(p) => p,
                Err(e) => {
                    return Err(e);
                },
            };
            let uid = NodeUid::for_chain(props.id);
            Ok(Node::new(NodeType::Chain, Some(NodeProperties::Chain(props)), Some(area), Some(uid)))
        },
        Scope::InChain(c) => {
            if raw.kind != NodeType::Residue {
                return Err(kind_error());
            }
            let num = match opt_str(&raw.residue_number) {
                Some(n) => n,
                None => {
                    return Err(
                        FreesasaError::new(
                            "residue node had no residue-number field",
                            Some(FreesasaErrorKind::NullNativeField),
                            None,
                        ),
                    );
                },
            };
            let rid = match NodeUid::parse_residue_field(num) {
                Ok(rid) => rid,
                Err(e) => {
                    return Err(e);
                },
            };
            let props = match ResidueProperties::new(raw.n_atoms, Some(num), opt_str(&raw.name)) {
                Ok(p) => p,
                Err(e) => {
                    return Err(e);
                },
            };
            let uid = NodeUid::Residue { chain: c, number: rid.0, insertion: rid.1 };
            Ok(
                Node::new(
                    NodeType::Residue,
                    Some(NodeProperties::Residue(props)),
                    Some(area),
                    Some(uid),
                ),
            )
        },
        Scope::InResidue(c, num, ins) => {
            if raw.kind != NodeType::Atom {
                return Err(kind_error());
            }
            let name = match opt_str(&raw.name) {
                Some(n) => n,
                None => {
                    return Err(
                        FreesasaError::new(
                            "atom node had no name",
                            Some(FreesasaErrorKind::NullNativeField),
                            None,
                        ),
                    );
                },
            };
            let props = match AtomProperties::new(Some(name), raw.is_polar, raw.is_bb, raw.radius) {
                Ok(p) => p,
                Err(e) => {
                    return Err(e);
                },
            };
            let uid = NodeUid::Atom { chain: c, number: num, insertion: ins, name: name.to_owned() };
            Ok(Node::new(NodeType::Atom, Some(NodeProperties::Atom(props)), Some(area), Some(uid)))
        },
    }
}

fn kind_error() -> (r: FreesasaError)
    ensures
        r.kind == Some(FreesasaErrorKind::NativeTreeConstructionFailed),
{
    FreesasaError::new(
        "native node kind does not fit its place in the hierarchy",
        Some(FreesasaErrorKind::NativeTreeConstructionFailed),
        None,
    )
}

fn scope_from_node(n: &Node) -> (r: Scope)
    ensures
        r == scope_of(*n),
{
    match &n.uid {
        None => Scope::InStructure,
        Some(NodeUid::Chain { chain }) => Scope::InChain(*chain),
        Some(NodeUid::Residue { chain, number, insertion }) => Scope::InResidue(
            *chain,
            *number,
            *insertion,
        ),
        Some(NodeUid::Atom { .. }) => Scope::Top,
    }
}

/// Inserts a built child into an identity-keyed sibling list: a child with
/// an identity already present replaces it, anything else is appended.
fn insert_child(children: &mut Vec<SasaTree>, c: SasaTree)
    requires
        c.node.uid is Some,
        kids_keyed(old(children)@),
    ensures
        final(children)@ == spec_insert_child(old(children)@, c),
        kids_keyed(final(children)@),
{
    let n = children.len();
    let mut i: usize = 0;
    while i < n
        invariant
            i <= n,
            n == children@.len(),
            c.node.uid is Some,
            kids_keyed(children@),
            children@ == old(children)@,
            forall|j: int| 0 <= j < i ==> !uid_opt_eq(#[trigger] children@[j].node.uid, c.node.uid),
        decreases n - i,
    {
        let matched = match (&children[i].node.uid, &c.node.uid) {
            (Some(u), Some(v)) => u.equals(v),
            _ => unreached(),
        };
        if matched {
            let ghost old_kids = children@;
            let ghost ii = i as int;
            children.set(i, c);
            proof {
                assert(uid_opt_eq(old_kids[ii].node.uid, c.node.uid));
                let j = choose|j: int|
                    0 <= j < old_kids.len() && uid_opt_eq(
                        #[trigger] old_kids[j].node.uid,
                        c.node.uid,
                    );
                if j != ii {
                    lemma_uid_eq_sym(old_kids[j].node.uid->0, c.node.uid->0);
                    lemma_uid_eq_trans(
                        old_kids[ii].node.uid->0,
                        c.node.uid->0,
                        old_kids[j].node.uid->0,
                    );
                    lemma_uid_eq_sym(old_kids[ii].node.uid->0, old_kids[j].node.uid->0);
                    assert(false);
                }
                assert(children@ == spec_insert_child(old_kids, c));
                assert forall|x: int, y: int| 0 <= x < y < children@.len() implies !uid_opt_eq(
                    #[trigger] children@[x].node.uid,
                    #[trigger] children@[y].node.uid,
                ) by {
                    if x == ii || y == ii {
                        let other = if x == ii {
                            y
                        } else {
                            x
                        };
                        if uid_opt_eq(children@[x].node.uid, children@[y].node.uid) {
                            let ou = old_kids[other].node.uid->0;
                            let cuu = c.node.uid->0;
                            let iu = old_kids[ii].node.uid->0;
                            lemma_uid_eq_sym(ou, cuu);
                            lemma_uid_eq_sym(cuu, ou);
                            lemma_uid_eq_trans(ou, cuu, iu);
                            assert(false);
                        }
                    }
                }
            }
            return;
        }
        i += 1;
    }
    proof {
        assert(forall|j: int|
            0 <= j < children@.len() ==> !uid_opt_eq(#[trigger] children@[j].node.uid, c.node.uid));
    }
    children.push(c);
}

/// Identity equality is symmetric.
pub proof fn lemma_uid_eq_sym(a: NodeUid, b: NodeUid)
    ensures
        uid_eq(a, b) <==> uid_eq(b, a),
{
}

/// Identity equality is transitive.
pub proof fn lemma_uid_eq_trans(a: NodeUid, b: NodeUid, c: NodeUid)
    requires
        uid_eq(a, b),
        uid_eq(b, c),
    ensures
        uid_eq(a, c),
{
}

impl SasaTree {
    /// Builds the owned subtree for one raw node at its scope, materialising
    /// children down to the `depth` kind.
    fn build_from(scope: Scope, model: i32, raw: &RawNode, depth: NodeType) -> (r: Result<
        SasaTree,
        FreesasaError,
    >)
        ensures
            match r {
                Ok(t) => {
                    &&& spec_buildable(scope, *raw, depth)
                    &&& builds(scope, model, *raw, depth, t)
                    &&& kids_keyed(t.children@)
                },
                Err(e) => !spec_buildable(scope, *raw, depth) && build_error_kind(e),
            },
        decreases *raw,
    {
        let node = match build_node(scope, model, raw) {
            Ok(n) => n,
            Err(e) => {
                return Err(e);
            },
        };
        if raw.kind == depth {
            return Ok(SasaTree { node, children: Vec::new() });
        }
        if raw.kind == NodeType::Atom {
            if raw.children.len() > 0 {
                return Err(
                    FreesasaError::new(
                        "native atom node has children",
                        Some(FreesasaErrorKind::NativeTreeConstructionFailed),
                        None,
                    ),
                );
            }
            return Ok(SasaTree { node, children: Vec::new() });
        }
        let child_scope = scope_from_node(&node);
        proof {
            assert(child_scope == spec_child_scope(scope, *raw));
        }
        let child_model = if raw.kind == NodeType::Structure {
            raw.model
        } else {
            model
        };
        let n = raw.children.len();
        let mut children: Vec<SasaTree> = Vec::new();
        let mut i: usize = 0;
        while i < n
            invariant
                i <= n,
                n == raw.children@.len(),
                raw.kind != depth,
                raw.kind != NodeType::Atom,
                child_scope == spec_child_scope(scope, *raw),
                child_scope != Scope::Top,
                child_model == spec_child_model(model, *raw),
                kids_keyed(children@),
                builds_forest(
                    child_scope,
                    child_model,
                    raw.children@.take(i as int),
                    depth,
                    children@,
                ),
                forall|k: int|
                    0 <= k < i ==> spec_buildable(child_scope, #[trigger] raw.children@[k], depth),
            decreases n - i,
        {
            proof {
                assert(decreases_to!(*raw => raw.children@[i as int]));
            }
            let sub = match Self::build_from(child_scope, child_model, &raw.children[i], depth) {
                Ok(s) => s,
                Err(e) => {
                    return Err(e);
                },
            };
            proof {
                assert(sub.node.uid is Some);
            }
            let ghost prev = children@;
            let ghost subg = sub;
            insert_child(&mut children, sub);
            proof {
                let raws1 = raw.children@.take(i + 1);
                assert(raws1.drop_last() =~= raw.children@.take(i as int));
                assert(raws1.last() == raw.children@[i as int]);
                assert(builds_forest(child_scope, child_model, raws1.drop_last(), depth, prev));
                assert(builds(child_scope, child_model, raws1.last(), depth, subg));
                assert(children@ == spec_insert_child(prev, subg));
                assert(builds_forest(child_scope, child_model, raws1, depth, children@));
            }
            i += 1;
        }
        proof {
            assert(raw.children@.take(n as int) =~= raw.children@);
        }
        Ok(SasaTree { node, children })
    }

    /// Builds an owned tree from a raw native tree, materialising nodes down
    /// to the `depth` kind. A raw root above the structure level (a root or
    /// result wrapper) is skipped down its first children to the first
    /// structure node; the owned tree is rooted there.
    pub fn new(root: &RawNode, depth: &NodeType) -> (r: Result<SasaTree, FreesasaError>)
        ensures
            match r {
                Ok(t) => {
                    &&& spec_find_structure(*root) matches Some(s) && spec_buildable(
                        Scope::Top,
                        s,
                        *depth,
                    ) && builds(Scope::Top, s.model, s, *depth, t)
                },
                Err(e) => {
                    &&& build_error_kind(e)
                    &&& match spec_find_structure(*root) {
                        Some(s) => !spec_buildable(Scope::Top, s, *depth),
                        None => e.kind == Some(FreesasaErrorKind::NativeTreeConstructionFailed),
                    }
                },
            },
    {
        let s = match find_structure(root) {
            Some(s) => s,
            None => {
                return Err(
                    FreesasaError::new(
                        "native tree holds no structure node",
                        Some(FreesasaErrorKind::NativeTreeConstructionFailed),
                        None,
                    ),
                );
            },
        };
        Self::build_from(Scope::Top, s.model, s, *depth)
    }
}

/// The first structure node reached by descending first children from the
/// raw root.
pub open spec fn spec_find_structure(raw: RawNode) -> Option<RawNode>
    decreases raw,
{
    if raw.kind == NodeType::Structure {
        Some(raw)
    } else if raw.children.len() > 0 {
        spec_find_structure(raw.children[0])
    } else {
        None
    }
}

fn find_structure(raw: &RawNode) -> (r: Option<&RawNode>)
    ensures
        match r {
            Some(s) => spec_find_structure(*raw) == Some(*s),
            None => spec_find_structure(*raw) is None,
        },
    decreases *raw,
{
    if raw.kind == NodeType::Structure {
        Some(raw)
    } else if raw.children.len() > 0 {
        proof {
            assert(decreases_to!(*raw => raw.children@[0]));
        }
        find_structure(&raw.children[0])
    } else {
        None
    }
}

// ---------------------------------------------------------------------------
// Comparing two owned trees
// ---------------------------------------------------------------------------
/// A node that takes part in a comparison at a kind: it is of that kind and
/// carries an identity and an area.
pub open spec fn is_cand(n: Node, kind: NodeType) -> bool {
    n.nodetype == kind && n.uid is Some && n.area is Some
}

/// Whether a node is the counterpart of an identity at a kind.
pub open spec fn is_match(n: Node, kind: NodeType, uid: NodeUid) -> bool {
    n.nodetype == kind && (n.uid matches Some(u) && uid_eq(u, uid))
}

/// The first index of a counterpart of `uid` at `kind`, scanning from the
/// front.
pub open spec fn spec_lookup_idx(s: Seq<Node>, kind: NodeType, uid: NodeUid) -> Option<int>
    decreases s,
{
    if s.len() == 0 {
        None
    } else if is_match(s[0], kind, uid) {
        Some(0)
    } else {
        match spec_lookup_idx(s.drop_first(), kind, uid) {
            Some(j) => Some(j + 1),
            None => None,
        }
    }
}

pub proof fn lemma_lookup_idx_props(s: Seq<Node>, kind: NodeType, uid: NodeUid)
    ensures
        match spec_lookup_idx(s, kind, uid) {
            Some(j) => 0 <= j < s.len() && is_match(s[j], kind, uid) && (forall|x: int|
                0 <= x < j ==> !is_match(#[trigger] s[x], kind, uid)),
            None => forall|x: int| 0 <= x < s.len() ==> !is_match(#[trigger] s[x], kind, uid),
        },
    decreases s,
{
    if s.len() > 0 && !is_match(s[0], kind, uid) {
        lemma_lookup_idx_props(s.drop_first(), kind, uid);
        let t = s.drop_first();
        assert(forall|x: int| 1 <= x < s.len() ==> #[trigger] s[x] == t[x - 1]);
    }
}

pub proof fn lemma_lookup_idx_first(s: Seq<Node>, kind: NodeType, uid: NodeUid, i: int)
    requires
        0 <= i < s.len(),
        is_match(s[i], kind, uid),
        forall|x: int| 0 <= x < i ==> !is_match(#[trigger] s[x], kind, uid),
    ensures
        spec_lookup_idx(s, kind, uid) == Some(i),
    decreases s,
{
    if i == 0 {
    } else {
        let t = s.drop_first();
        assert(forall|x: int| 0 <= x < t.len() ==> #[trigger] t[x] == s[x + 1]);
        lemma_lookup_idx_first(t, kind, uid, i - 1);
    }
}

pub proof fn lemma_lookup_idx_none(s: Seq<Node>, kind: NodeType, uid: NodeUid)
    requires
        forall|x: int| 0 <= x < s.len() ==> !is_match(#[trigger] s[x], kind, uid),
    ensures
        spec_lookup_idx(s, kind, uid) is None,
    decreases s,
{
    if s.len() > 0 {
        let t = s.drop_first();
        assert(forall|x: int| 0 <= x < t.len() ==> #[trigger] t[x] == s[x + 1]);
        lemma_lookup_idx_none(t, kind, uid);
    }
}

/// Looking an identity up in two value-equal node lists finds the same
/// index.
pub proof fn lemma_lookup_respects_node_eq(
    s1: Seq<Node>,
    s2: Seq<Node>,
    kind: NodeType,
    u1: NodeUid,
    u2: NodeUid,
)
    requires
        nodes_eq_seq(s1, s2),
        uid_eq(u1, u2),
    ensures
        spec_lookup_idx(s1, kind, u1) == spec_lookup_idx(s2, kind, u2),
    decreases s1,
{
    if s1.len() > 0 {
        assert(node_eq(s1[0], s2[0]));
        if is_match(s1[0], kind, u1) != is_match(s2[0], kind, u2) {
            if is_match(s1[0], kind, u1) {
                lemma_uid_eq_sym(s1[0].uid->0, s2[0].uid->0);
                lemma_uid_eq_trans(s2[0].uid->0, s1[0].uid->0, u1);
                lemma_uid_eq_trans(s2[0].uid->0, u1, u2);
            } else {
                lemma_uid_eq_sym(u1, u2);
                lemma_uid_eq_trans(s1[0].uid->0, s2[0].uid->0, u2);
                lemma_uid_eq_trans(s1[0].uid->0, u2, u1);
            }
            assert(false);
        }
        if !is_match(s1[0], kind, u1) {
            let t1 = s1.drop_first();
            let t2 = s2.drop_first();
            assert(forall|x: int| 0 <= x < t1.len() ==> t1[x] == s1[x + 1]);
            assert(forall|x: int| 0 <= x < t2.len() ==> t2[x] == s2[x + 1]);
            assert(nodes_eq_seq(t1, t2));
            lemma_lookup_respects_node_eq(t1, t2, kind, u1, u2);
        }
    }
}

/// The component-wise difference `other - base`, as the comparison computes
/// it. On in-range areas the casts are exact.
pub open spec fn spec_area_delta(base: NodeArea, other: NodeArea) -> NodeArea {
    NodeArea {
        total: (other.total - base.total) as i64,
        main_chain: (other.main_chain - base.main_chain) as i64,
        side_chain: (other.side_chain - base.side_chain) as i64,
        polar: (other.polar - base.polar) as i64,
        apolar: (other.apolar - base.apolar) as i64,
        unknown: (other.unknown - base.unknown) as i64,
    }
}

/// Whether a base node is reported against the other tree's nodes: it has a
/// counterpart of the same identity there, both carry areas, and the total
/// components differ by more than `eps` in magnitude.
pub open spec fn spec_emits(n: Node, bnodes: Seq<Node>, kind: NodeType, eps: i64) -> bool {
    &&& is_cand(n, kind)
    &&& match spec_lookup_idx(bnodes, kind, n.uid->0) {
        Some(j) => bnodes[j].area matches Some(ba) && {
            let d = ba.total - n.area->0.total;
            (if d < 0 {
                -d
            } else {
                d
            }) > eps
        },
        None => false,
    }
}

/// The node reported for a base node: the shared kind and identity, and the
/// area difference `other - base`.
pub open spec fn spec_delta_node(n: Node, bnodes: Seq<Node>, kind: NodeType) -> Node {
    let j = spec_lookup_idx(bnodes, kind, n.uid->0)->0;
    Node {
        nodetype: kind,
        uid: n.uid,
        area: Some(spec_area_delta(n.area->0, bnodes[j].area->0)),
        properties: None,
    }
}

/// The comparison of two flattened trees at a kind: for each base node of
/// the kind, in order, the reported difference when its counterpart differs
/// by more than `eps`.
pub open spec fn spec_delta_nodes(
    anodes: Seq<Node>,
    bnodes: Seq<Node>,
    kind: NodeType,
    eps: i64,
) -> Seq<Node>
    decreases anodes,
{
    if anodes.len() == 0 {
        Seq::empty()
    } else {
        let rest = spec_delta_nodes(anodes.drop_last(), bnodes, kind, eps);
        if spec_emits(anodes.last(), bnodes, kind, eps) {
            rest.push(spec_delta_node(anodes.last(), bnodes, kind))
        } else {
            rest
        }
    }
}

fn is_match_node(n: &Node, kind: NodeType, uid: &NodeUid) -> (r: bool)
    ensures
        r == is_match(*n, kind, *uid),
{
    if !(n.nodetype == kind) {
        return false;
    }
    match &n.uid {
        Some(u) => u.equals(uid),
        None => false,
    }
}

fn find_match(nodes: &Vec<Node>, kind: NodeType, uid: &NodeUid) -> (r: Option<usize>)
    ensures
        match r {
            Some(i) => spec_lookup_idx(nodes@, kind, *uid) == Some(i as int),
            None => spec_lookup_idx(nodes@, kind, *uid) is None,
        },
{
    let n = nodes.len();
    let mut i: usize = 0;
    while i < n
        invariant
            i <= n,
            n == nodes@.len(),
            forall|x: int| 0 <= x < i ==> !is_match(#[trigger] nodes@[x], kind, *uid),
        decreases n - i,
    {
        if is_match_node(&nodes[i], kind, uid) {
            proof {
                lemma_lookup_idx_first(nodes@, kind, *uid, i as int);
            }
            return Some(i);
        }
        i += 1;
    }
    proof {
        lemma_lookup_idx_none(nodes@, kind, *uid);
    }
    None
}

/// Every node of a well-formed tree carries an in-range area.
pub proof fn lemma_wf_nodes_bounded(scope: Scope, t: SasaTree)
    requires
        wf_in(scope, t),
    ensures
        forall|k: int|
            0 <= k < spec_nodes(t).len() ==> ((#[trigger] spec_nodes(t)[k].area) matches Some(a)
                && area_bounded(a)),
    decreases t,
{
    lemma_wf_forest_bounded(scope_of(t.node), t.children@);
    assert(spec_nodes(t)[0] == t.node);
    assert forall|k: int| 0 <= k < spec_nodes(t).len() implies ((
    #[trigger] spec_nodes(t)[k].area) matches Some(a) && area_bounded(a)) by {
        if k > 0 {
            assert(spec_nodes(t)[k] == spec_forest_nodes(t.children@)[k - 1]);
        }
    }
}

pub proof fn lemma_wf_forest_bounded(scope: Scope, f: Seq<SasaTree>)
    requires
        forall|i: int| 0 <= i < f.len() ==> wf_in(scope, #[trigger] f[i]),
    ensures
        forall|k: int|
            0 <= k < spec_forest_nodes(f).len() ==> ((
            #[trigger] spec_forest_nodes(f)[k].area) matches Some(a) && area_bounded(a)),
    decreases f,
{
    if f.len() > 0 {
        lemma_wf_nodes_bounded(scope, f[0]);
        let rest = f.drop_first();
        assert(forall|i: int| 0 <= i < rest.len() ==> rest[i] == f[i + 1]);
        lemma_wf_forest_bounded(scope, rest);
        let head = spec_nodes(f[0]);
        assert forall|k: int| 0 <= k < spec_forest_nodes(f).len() implies ((
        #[trigger] spec_forest_nodes(f)[k].area) matches Some(a) && area_bounded(a)) by {
            if k < head.len() {
                assert(spec_forest_nodes(f)[k] == head[k]);
            } else {
                assert(spec_forest_nodes(f)[k] == spec_forest_nodes(rest)[k - head.len()]);
            }
        }
    }
}

impl SasaTree {
    /// Compares this tree against another at a kind: every node of that kind
    /// here whose same-identity counterpart there differs in total area by
    /// more than `eps` (in magnitude) is reported, with the difference
    /// `other - self` as its area. Nodes without a counterpart are skipped:
    /// absence is not an area difference. Matching is by identity alone,
    /// never by position.
    pub fn delta_nodes(&self, other: &SasaTree, kind: NodeType, eps: i64) -> (r: Vec<Node>)
        requires
            wf_tree(*self),
            wf_tree(*other),
            eps >= 0,
        ensures
            nodes_eq_seq(r@, spec_delta_nodes(spec_nodes(*self), spec_nodes(*other), kind, eps)),
    {
        let anodes = self.nodes();
        let bnodes = other.nodes();
        let ghost sa = spec_nodes(*self);
        let ghost sb = spec_nodes(*other);
        proof {
            lemma_wf_nodes_bounded(Scope::Top, *self);
            lemma_wf_nodes_bounded(Scope::Top, *other);
        }
        let n = anodes.len();
        let mut out: Vec<Node> = Vec::new();
        let mut i: usize = 0;
        while i < n
            invariant
                i <= n,
                n == anodes@.len(),
                nodes_eq_seq(anodes@, sa),
                nodes_eq_seq(bnodes@, sb),
                sa == spec_nodes(*self),
                sb == spec_nodes(*other),
                wf_tree(*self),
                wf_tree(*other),
                forall|k: int|
                    0 <= k < sa.len() ==> ((#[trigger] sa[k].area) matches Some(a) && area_bounded(
                        a,
                    )),
                forall|k: int|
                    0 <= k < sb.len() ==> ((#[trigger] sb[k].area) matches Some(a) && area_bounded(
                        a,
                    )),
                nodes_eq_seq(out@, spec_delta_nodes(sa.take(i as int), sb, kind, eps)),
            decreases n - i,
        {
            let ghost prefix = spec_delta_nodes(sa.take(i as int), sb, kind, eps);
            proof {
                assert(sa.take(i + 1).drop_last() =~= sa.take(i as int));
                assert(sa.take(i + 1).last() == sa[i as int]);
                assert(node_eq(anodes@[i as int], sa[i as int]));
            }
            let a_node = &anodes[i];
            if a_node.nodetype == kind {
                match (&a_node.uid, &a_node.area) {
                    (Some(uid), Some(aa)) => {
                        match find_match(&bnodes, kind, uid) {
                            Some(j) => {
                                proof {
                                    lemma_uid_eq_sym(anodes@[i as int].uid->0, sa[i as int].uid->0);
                                    lemma_uid_eq_trans(
                                        sa[i as int].uid->0,
                                        sa[i as int].uid->0,
                                        sa[i as int].uid->0,
                                    );
                                    lemma_lookup_respects_node_eq(
                                        bnodes@,
                                        sb,
                                        kind,
                                        anodes@[i as int].uid->0,
                                        sa[i as int].uid->0,
                                    );
                                    lemma_lookup_idx_props(sb, kind, sa[i as int].uid->0);
                                    assert(node_eq(bnodes@[j as int], sb[j as int]));
                                }
                                match &bnodes[j].area {
                                    Some(ba) => {
                                        let delta = ba.sub(aa);
                                        let mag = delta.total_abs();
                                        if mag > eps {
                                            let rep = Node::new(
                                                kind,
                                                None,
                                                Some(delta),
                                                Some(uid.duplicate()),
                                            );
                                            out.push(rep);
                                            proof {
                                                assert(spec_emits(sa[i as int], sb, kind, eps));
                                                lemma_uid_eq_trans(
                                                    rep.uid->0,
                                                    anodes@[i as int].uid->0,
                                                    sa[i as int].uid->0,
                                                );
                                                assert(node_eq(
                                                    rep,
                                                    spec_delta_node(sa[i as int], sb, kind),
                                                ));
                                                assert(nodes_eq_seq(
                                                    out@,
                                                    prefix.push(
                                                        spec_delta_node(sa[i as int], sb, kind),
                                                    ),
                                                ));
                                            }
                                        } else {
                                            proof {
                                                assert(!spec_emits(sa[i as int], sb, kind, eps));
                                            }
                                        }
                                    },
                                    None => {
                                        proof {
                                            assert(!spec_emits(sa[i as int], sb, kind, eps));
                                        }
                                    },
                                }
                            },
                            None => {
                                proof {
                                    lemma_lookup_respects_node_eq(
                                        bnodes@,
                                        sb,
                                        kind,
                                        anodes@[i as int].uid->0,
                                        sa[i as int].uid->0,
                                    );
                                    assert(!spec_emits(sa[i as int], sb, kind, eps));
                                }
                            },
                        }
                    },
                    _ => {
                        proof {
                            assert(!is_cand(sa[i as int], kind));
                        }
                    },
                }
            } else {
                proof {
                    assert(!is_cand(sa[i as int], kind));
                }
            }
            i += 1;
        }
        proof {
            assert(sa.take(n as int) =~= sa);
        }
        out
    }
}

/// The pair of areas a comparison at `kind` combines for base-node `i`: its
/// own area and its same-identity counterpart's, when both exist.
pub open spec fn matched_areas(sa: Seq<Node>, sb: Seq<Node>, kind: NodeType, i: int) -> Option<
    (NodeArea, NodeArea),
> {
    if 0 <= i < sa.len() && is_cand(sa[i], kind) {
        match spec_lookup_idx(sb, kind, sa[i].uid->0) {
            Some(j) => match sb[j].area {
                Some(ba) => Some((sa[i].area->0, ba)),
                None => None,
            },
            None => None,
        }
    } else {
        None
    }
}

/// An output node of the generic comparison: it reports base-node `i` with
/// the shared kind and identity and the combined area `d`.
pub open spec fn reported(
    sa: Seq<Node>,
    sb: Seq<Node>,
    kind: NodeType,
    i: int,
    d: NodeArea,
    out: Node,
) -> bool {
    &&& matched_areas(sa, sb, kind, i) is Some
    &&& out.nodetype == kind
    &&& uid_opt_eq(out.uid, sa[i].uid)
    &&& out.area == Some(d)
    &&& out.properties is None
}

impl SasaTree {
    /// The generic comparison: for every node of `node_filter` kind in this
    /// tree whose same-identity counterpart in `other` also carries an area,
    /// `op` combines the two areas and the combined area is reported exactly
    /// when `predicate` accepts it. Nodes without a counterpart are skipped.
    ///
    /// The first clause says every reported node really arises this way;
    /// the second says that for functional `op` and `predicate` (one result
    /// per input) every accepted pair is reported.
    #[verifier::rlimit(100)]
    #[verifier::spinoff_prover]
    #[verifier::loop_isolation(false)]
    pub fn predicate_trees<O: Fn(NodeArea, NodeArea) -> NodeArea, P: Fn(NodeArea) -> bool>(
        &self,
        other: &SasaTree,
        node_filter: NodeType,
        op: &O,
        predicate: &P,
    ) -> (r: Vec<Node>)
        requires
            wf_tree(*self),
            wf_tree(*other),
            forall|a: NodeArea, b: NodeArea|
                area_bounded(a) && area_bounded(b) ==> #[trigger] call_requires(*op, (a, b)),
            forall|d: NodeArea| #[trigger] call_requires(*predicate, (d,)),
        ensures
            exists|w: Seq<(int, NodeArea)>|
                #![trigger w.len()]
                {
                    &&& w.len() == r@.len()
                    &&& forall|k: int|
                        #![trigger r@[k]]
                        0 <= k < r@.len() ==> {
                            &&& reported(
                                spec_nodes(*self),
                                spec_nodes(*other),
                                node_filter,
                                w[k].0,
                                w[k].1,
                                r@[k],
                            )
                            &&& call_ensures(
                                *op,
                                matched_areas(
                                    spec_nodes(*self),
                                    spec_nodes(*other),
                                    node_filter,
                                    w[k].0,
                                )->0,
                                w[k].1,
                            )
                            &&& call_ensures(*predicate, (w[k].1,), true)
                        }
                },
            ((forall|a: NodeArea, b: NodeArea, d1: NodeArea, d2: NodeArea|
                #[trigger] call_ensures(*op, (a, b), d1) && #[trigger] call_ensures(
                    *op,
                    (a, b),
                    d2,
                ) ==> d1 == d2) && (forall|d: NodeArea, b1: bool, b2: bool|
                #[trigger] call_ensures(*predicate, (d,), b1) && #[trigger] call_ensures(
                    *predicate,
                    (d,),
                    b2,
                ) ==> b1 == b2)) ==> forall|i: int, d: NodeArea|
                #![trigger matched_areas(spec_nodes(*self), spec_nodes(*other), node_filter, i), call_ensures(*predicate, (d,), true)]
                (matched_areas(spec_nodes(*self), spec_nodes(*other), node_filter, i) matches Some(
                    ab,
                ) && call_ensures(*op, ab, d) && call_ensures(*predicate, (d,), true)) ==> exists|
                    k: int,
                |
                    0 <= k < r@.len() && reported(
                        spec_nodes(*self),
                        spec_nodes(*other),
                        node_filter,
                        i,
                        d,
                        r@[k],
                    ),
    {
        let anodes = self.nodes();
        let bnodes = other.nodes();
        let ghost sa = spec_nodes(*self);
        let ghost sb = spec_nodes(*other);
        let ghost det = (forall|a: NodeArea, b: NodeArea, d1: NodeArea, d2: NodeArea|
            #[trigger] call_ensures(*op, (a, b), d1) && #[trigger] call_ensures(*op, (a, b), d2)
                ==> d1 == d2) && (forall|d: NodeArea, b1: bool, b2: bool|
            #[trigger] call_ensures(*predicate, (d,), b1) && #[trigger] call_ensures(
                *predicate,
                (d,),
                b2,
            ) ==> b1 == b2);
        let ghost mut wit_idx: Seq<int> = Seq::empty();
        let ghost mut wit_area: Seq<NodeArea> = Seq::empty();
        proof {
            lemma_wf_nodes_bounded(Scope::Top, *self);
            lemma_wf_nodes_bounded(Scope::Top, *other);
        }
        let n = anodes.len();
        let mut out: Vec<Node> = Vec::new();
        let mut i: usize = 0;
        while i < n
            invariant
                i <= n,
                n == anodes@.len(),
                nodes_eq_seq(anodes@, sa),
                nodes_eq_seq(bnodes@, sb),
                sa == spec_nodes(*self),
                sb == spec_nodes(*other),
                forall|k: int|
                    0 <= k < sa.len() ==> ((#[trigger] sa[k].area) matches Some(a) && area_bounded(
                        a,
                    )),
                forall|k: int|
                    0 <= k < sb.len() ==> ((#[trigger] sb[k].area) matches Some(a) && area_bounded(
                        a,
                    )),
                forall|a: NodeArea, b: NodeArea|
                    area_bounded(a) && area_bounded(b) ==> #[trigger] call_requires(*op, (a, b)),
                forall|d: NodeArea| #[trigger] call_requires(*predicate, (d,)),
                det == ((forall|a: NodeArea, b: NodeArea, d1: NodeArea, d2: NodeArea|
                    #[trigger] call_ensures(*op, (a, b), d1) && #[trigger] call_ensures(
                        *op,
                        (a, b),
                        d2,
                    ) ==> d1 == d2) && (forall|d: NodeArea, b1: bool, b2: bool|
                    #[trigger] call_ensures(*predicate, (d,), b1) && #[trigger] call_ensures(
                        *predicate,
                        (d,),
                        b2,
                    ) ==> b1 == b2)),
                wit_idx.len() == out@.len(),
                wit_area.len() == out@.len(),
                forall|k: int|
                    #![trigger out@[k]]
                    0 <= k < out@.len() ==> {
                        &&& reported(sa, sb, node_filter, wit_idx[k], wit_area[k], out@[k])
                        &&& call_ensures(
                            *op,
                            matched_areas(sa, sb, node_filter, wit_idx[k])->0,
                            wit_area[k],
                        )
                        &&& call_ensures(*predicate, (wit_area[k],), true)
                    },
                det ==> forall|x: int, d: NodeArea|
                    #![trigger matched_areas(sa, sb, node_filter, x), call_ensures(*predicate, (d,), true)]
                    0 <= x < i && (matched_areas(sa, sb, node_filter, x) matches Some(ab)
                        && call_ensures(*op, ab, d) && call_ensures(*predicate, (d,), true))
                        ==> exists|k: int|
                        0 <= k < out@.len() && reported(sa, sb, node_filter, x, d, out@[k]),
            decreases n - i,
        {
            let ghost old_out = out@;
            proof {
                assert(node_eq(anodes@[i as int], sa[i as int]));
            }
            let a_node = &anodes[i];
            let mut matched: Option<(NodeArea, NodeArea)> = None;
            if a_node.nodetype == node_filter {
                match (&a_node.uid, &a_node.area) {
                    (Some(uid), Some(aa)) => {
                        proof {
                            lemma_lookup_respects_node_eq(
                                bnodes@,
                                sb,
                                node_filter,
                                anodes@[i as int].uid->0,
                                sa[i as int].uid->0,
                            );
                        }
                        match find_match(&bnodes, node_filter, uid) {
                            Some(j) => {
                                proof {
                                    lemma_lookup_idx_props(sb, node_filter, sa[i as int].uid->0);
                                    assert(node_eq(bnodes@[j as int], sb[j as int]));
                                }
                                match &bnodes[j].area {
                                    Some(ba) => {
                                        matched = Some((*aa, *ba));
                                    },
                                    None => {},
                                }
                            },
                            None => {},
                        }
                    },
                    _ => {},
                }
            }
            proof {
                match matched {
                    Some(p) => {
                        assert(matched_areas(sa, sb, node_filter, i as int) == Some(p));
                    },
                    None => {
                        assert(matched_areas(sa, sb, node_filter, i as int) is None);
                    },
                }
            }
            match matched {
                Some((aa, ba)) => {
                    let delta = op(aa, ba);
                    let keep = predicate(delta);
                    if keep {
                        let uid = match &a_node.uid {
                            Some(u) => u,
                            None => unreached(),
                        };
                        let rep = Node::new(node_filter, None, Some(delta), Some(uid.duplicate()));
                        out.push(rep);
                        proof {
                            wit_idx = wit_idx.push(i as int);
                            wit_area = wit_area.push(delta);
                            lemma_uid_eq_trans(
                                rep.uid->0,
                                anodes@[i as int].uid->0,
                                sa[i as int].uid->0,
                            );
                            assert(out@[out@.len() - 1] == rep);
                            assert(reported(sa, sb, node_filter, i as int, delta, rep));
                            assert(forall|k: int|
                                0 <= k < old_out.len() ==> #[trigger] out@[k] == old_out[k]);
                            if det {
                                assert forall|x: int, d: NodeArea|
                                    #![trigger matched_areas(sa, sb, node_filter, x), call_ensures(*predicate, (d,), true)]
                                    0 <= x < i + 1 && (matched_areas(
                                        sa,
                                        sb,
                                        node_filter,
                                        x,
                                    ) matches Some(ab) && call_ensures(*op, ab, d)
                                        && call_ensures(*predicate, (d,), true)) implies exists|
                                    k: int,
                                |
                                    0 <= k < out@.len() && reported(
                                        sa,
                                        sb,
                                        node_filter,
                                        x,
                                        d,
                                        out@[k],
                                    ) by {
                                    if x == i {
                                        assert(d == delta);
                                        assert(reported(
                                            sa,
                                            sb,
                                            node_filter,
                                            x,
                                            d,
                                            out@[out@.len() - 1],
                                        ));
                                    } else {
                                        let k = choose|k: int|
                                            0 <= k < old_out.len() && reported(
                                                sa,
                                                sb,
                                                node_filter,
                                                x,
                                                d,
                                                old_out[k],
                                            );
                                        assert(out@[k] == old_out[k]);
                                        assert(reported(sa, sb, node_filter, x, d, out@[k]));
                                    }
                                }
                            }
                        }
                    } else {
                        proof {
                            if det {
                                assert forall|d: NodeArea|
                                    call_ensures(*op, (aa, ba), d) && call_ensures(
                                        *predicate,
                                        (d,),
                                        true,
                                    ) implies false by {
                                    assert(d == delta);
                                    assert(call_ensures(*predicate, (delta,), false));
                                }
                            }
                        }
                    }
                },
                None => {},
            }
            i += 1;
        }
        proof {
            let w = Seq::new(wit_idx.len(), |k: int| (wit_idx[k], wit_area[k]));
            assert(w.len() == out@.len() && forall|k: int|
                #![trigger out@[k]]
                0 <= k < out@.len() ==> {
                    &&& reported(sa, sb, node_filter, w[k].0, w[k].1, out@[k])
                    &&& call_ensures(
                        *op,
                        matched_areas(sa, sb, node_filter, w[k].0)->0,
                        w[k].1,
                    )
                    &&& call_ensures(*predicate, (w[k].1,), true)
                });
        }
        out
    }
}

} // verus!
