use vstd::prelude::*;

use crate::node::Node;
use crate::node::NodeType;
use crate::raw::RawNode;
use crate::tree::SasaTree;
use crate::tree::Scope;
use crate::tree::builds;
use crate::tree::builds_forest;
use crate::tree::is_cand;
use crate::tree::is_match;
use crate::tree::lemma_lookup_idx_props;
use crate::tree::lemma_uid_eq_sym;
use crate::tree::lemma_uid_eq_trans;
use crate::tree::node_scope_ok;
use crate::tree::scope_of;
use crate::tree::spec_buildable;
use crate::tree::spec_buildable_node;
use crate::tree::spec_built_node;
use crate::tree::spec_child_model;
use crate::tree::spec_child_scope;
use crate::tree::spec_delta_nodes;
use crate::tree::spec_emits;
use crate::tree::spec_forest_nodes;
use crate::tree::spec_insert_child;
use crate::tree::spec_lookup_idx;
use crate::tree::spec_nodes;
use crate::tree::uid_opt_eq;
use crate::tree::wf_in;
use crate::tree::wf_tree;
use crate::uids::NodeUid;
use crate::uids::spec_parse_chain_label;
use crate::uids::spec_parse_residue_field;
use crate::uids::uid_eq;

verus! {

// ---------------------------------------------------------------------------
// Identities never collide across a well-formed tree
// ---------------------------------------------------------------------------
/// The identities that can appear in the subtree of a node with identity
/// `v`: the node's own, and deeper identities that embed it.
pub open spec fn in_cone(v: Option<NodeUid>, u: NodeUid) -> bool {
    match v {
        None => true,
        Some(NodeUid::Chain { chain }) => match u {
            NodeUid::Chain { chain: c2 } => c2 == chain,
            NodeUid::Residue { chain: c2, .. } => c2 == chain,
            NodeUid::Atom { chain: c2, .. } => c2 == chain,
        },
        Some(NodeUid::Residue { chain, number, insertion }) => match u {
            NodeUid::Chain { .. } => false,
            NodeUid::Residue { chain: c2, number: n2, insertion: i2 } => c2 == chain && n2
                == number && i2 == insertion,
            NodeUid::Atom { chain: c2, number: n2, insertion: i2, .. } => c2 == chain && n2
                == number && i2 == insertion,
        },
        Some(NodeUid::Atom { chain, number, insertion, name }) => match u {
            NodeUid::Atom { chain: c2, number: n2, insertion: i2, name: m2 } => c2 == chain && n2
                == number && i2 == insertion && m2@ == name@,
            _ => false,
        },
    }
}

/// Cone membership only depends on an identity's value.
pub proof fn lemma_in_cone_respects(v: Option<NodeUid>, u1: NodeUid, u2: NodeUid)
    requires
        in_cone(v, u1),
        uid_eq(u1, u2),
    ensures
        in_cone(v, u2),
{
}

/// Two siblings with different identities have disjoint cones.
proof fn lemma_sibling_cones_disjoint(cs: Scope, n1: Node, n2: Node, u: NodeUid)
    requires
        cs != Scope::Top,
        node_scope_ok(cs, n1),
        node_scope_ok(cs, n2),
        !uid_opt_eq(n1.uid, n2.uid),
    ensures
        !(in_cone(n1.uid, u) && in_cone(n2.uid, u)),
{
}

/// Every identity in a well-formed subtree lies in the cone of its root,
/// and no two nodes of the subtree share an identity.
pub proof fn lemma_unique_nodes(scope: Scope, t: SasaTree)
    requires
        wf_in(scope, t),
    ensures
        forall|x: int, y: int|
            0 <= x < y < spec_nodes(t).len() ==> !uid_opt_eq(
                #[trigger] spec_nodes(t)[x].uid,
                #[trigger] spec_nodes(t)[y].uid,
            ),
        scope != Scope::Top ==> forall|k: int|
            0 <= k < spec_nodes(t).len() ==> ((#[trigger] spec_nodes(t)[k].uid) matches Some(u)
                ==> in_cone(t.node.uid, u)),
    decreases t,
{
    let ns = spec_nodes(t);
    let f = t.children@;
    let fn_ = spec_forest_nodes(f);
    assert(ns[0] == t.node);
    assert(forall|k: int| 1 <= k < ns.len() ==> #[trigger] ns[k] == fn_[k - 1]);
    if f.len() == 0 {
    } else {
        let cs = scope_of(t.node);
        assert(cs != Scope::Top);
        lemma_forest_unique(cs, f);
        // the root's identity differs from every descendant's
        assert forall|y: int|
            1 <= y < ns.len() && (ns[0].uid is Some) && (#[trigger] ns[y].uid) is Some implies
        !uid_opt_eq(ns[0].uid, ns[y].uid) by {
            assert(ns[y] == fn_[y - 1]);
            let u = ns[y].uid->0;
            assert(fn_[y - 1].uid matches Some(w) && w == u);
            assert(exists|i: int| 0 <= i < f.len() && in_cone(#[trigger] f[i].node.uid, u));
            let i = choose|i: int| 0 <= i < f.len() && in_cone(#[trigger] f[i].node.uid, u);
            assert(wf_in(cs, f[i]));
            assert(node_scope_ok(cs, f[i].node));
            if uid_opt_eq(ns[0].uid, ns[y].uid) {
                lemma_in_cone_respects(f[i].node.uid, u, ns[0].uid->0);
                assert(false);
            }
        }
        if scope != Scope::Top {
            assert forall|k: int|
                0 <= k < ns.len() && ((#[trigger] ns[k].uid) matches Some(u)) implies in_cone(
                t.node.uid,
                ns[k].uid->0,
            ) by {
                if k > 0 {
                    assert(ns[k] == fn_[k - 1]);
                    let u = ns[k].uid->0;
                    assert(fn_[k - 1].uid matches Some(w) && w == u);
                    assert(exists|i: int| 0 <= i < f.len() && in_cone(#[trigger] f[i].node.uid, u));
                    let i = choose|i: int| 0 <= i < f.len() && in_cone(#[trigger] f[i].node.uid, u);
                    assert(wf_in(cs, f[i]));
                    assert(node_scope_ok(cs, f[i].node));
                }
            }
        }
    }
}

/// Forest version: identities are unique across the whole forest, and each
/// lies in the cone of the sibling subtree that holds it.
pub proof fn lemma_forest_unique(cs: Scope, f: Seq<SasaTree>)
    requires
        cs != Scope::Top,
        forall|i: int| 0 <= i < f.len() ==> wf_in(cs, #[trigger] f[i]),
        forall|i: int, j: int|
            0 <= i < j < f.len() ==> !uid_opt_eq(
                #[trigger] f[i].node.uid,
                #[trigger] f[j].node.uid,
            ),
    ensures
        forall|x: int, y: int|
            0 <= x < y < spec_forest_nodes(f).len() ==> !uid_opt_eq(
                #[trigger] spec_forest_nodes(f)[x].uid,
                #[trigger] spec_forest_nodes(f)[y].uid,
            ),
        forall|k: int|
            0 <= k < spec_forest_nodes(f).len() ==> ((#[trigger] spec_forest_nodes(f)[k].uid)
                matches Some(u) ==> exists|i: int|
                0 <= i < f.len() && in_cone(#[trigger] f[i].node.uid, u)),
    decreases f,
{
    if f.len() > 0 {
        let head = spec_nodes(f[0]);
        let rest = f.drop_first();
        let restn = spec_forest_nodes(rest);
        let fn_ = spec_forest_nodes(f);
        assert(forall|k: int| 0 <= k < head.len() ==> #[trigger] fn_[k] == head[k]);
        assert(forall|k: int|
            head.len() <= k < fn_.len() ==> #[trigger] fn_[k] == restn[k - head.len()]);
        assert(forall|i: int| 0 <= i < rest.len() ==> #[trigger] rest[i] == f[i + 1]);
        lemma_unique_nodes(cs, f[0]);
        lemma_forest_unique(cs, rest);
        // uniqueness across the boundary
        assert forall|x: int, y: int|
            0 <= x < y < fn_.len() && (fn_[x].uid is Some) && (fn_[y].uid is Some) implies
        !uid_opt_eq(#[trigger] fn_[x].uid, #[trigger] fn_[y].uid) by {
            if x < head.len() && y >= head.len() {
                let u1 = fn_[x].uid->0;
                let u2 = fn_[y].uid->0;
                assert(in_cone(f[0].node.uid, u1));
                let i = choose|i: int|
                    0 <= i < rest.len() && in_cone(#[trigger] rest[i].node.uid, u2);
                if uid_opt_eq(fn_[x].uid, fn_[y].uid) {
                    lemma_in_cone_respects(f[0].node.uid, u1, u2);
                    lemma_sibling_cones_disjoint(cs, f[0].node, f[i + 1].node, u2);
                }
            }
        }
        // cone membership
        assert forall|k: int|
            0 <= k < fn_.len() && ((#[trigger] fn_[k].uid) matches Some(u)) implies exists|i: int|
            0 <= i < f.len() && in_cone(#[trigger] f[i].node.uid, fn_[k].uid->0) by {
            let u = fn_[k].uid->0;
            if k < head.len() {
                assert(in_cone(f[0].node.uid, u));
            } else {
                let i = choose|i: int| 0 <= i < rest.len() && in_cone(#[trigger] rest[i].node.uid, u);
                assert(f[i + 1] == rest[i]);
                assert(in_cone(f[i + 1].node.uid, u));
            }
        }
    }
}

// ---------------------------------------------------------------------------
// Comparing a tree against itself reports nothing
// ---------------------------------------------------------------------------
proof fn lemma_self_prefix_empty(t: SasaTree, kind: NodeType, eps: i64, m: int)
    requires
        wf_tree(t),
        eps >= 0,
        0 <= m <= spec_nodes(t).len(),
    ensures
        spec_delta_nodes(spec_nodes(t).take(m), spec_nodes(t), kind, eps).len() == 0,
    decreases m,
{
    let s = spec_nodes(t);
    if m > 0 {
        lemma_self_prefix_empty(t, kind, eps, m - 1);
        assert(s.take(m).drop_last() =~= s.take(m - 1));
        let n = s[m - 1];
        assert(s.take(m).last() == n);
        if spec_emits(n, s, kind, eps) {
            let u = n.uid->0;
            lemma_lookup_idx_props(s, kind, u);
            let j = spec_lookup_idx(s, kind, u)->0;
            assert(is_match(s[j], kind, u));
            if j != m - 1 {
                lemma_unique_nodes(Scope::Top, t);
                lemma_uid_eq_sym(s[j].uid->0, u);
                assert(uid_opt_eq(s[j].uid, n.uid) || uid_opt_eq(n.uid, s[j].uid));
                assert(false);
            }
            assert(s[j] == n);
            assert(false);
        }
    }
}

/// Comparing any well-formed tree against itself, at any kind and any
/// non-negative tolerance, reports no differences.
pub proof fn lemma_compare_self_empty(t: SasaTree, kind: NodeType, eps: i64)
    requires
        wf_tree(t),
        eps >= 0,
    ensures
        spec_delta_nodes(spec_nodes(t), spec_nodes(t), kind, eps).len() == 0,
{
    let s = spec_nodes(t);
    lemma_self_prefix_empty(t, kind, eps, s.len() as int);
    assert(s.take(s.len() as int) =~= s);
}

// ---------------------------------------------------------------------------
// Matching is identity-based, never positional
// ---------------------------------------------------------------------------
/// Every reported difference pairs a base node with the counterpart of the
/// same identity in the other node list, wherever the two sit.
pub proof fn lemma_delta_matched_by_identity(
    anodes: Seq<Node>,
    bnodes: Seq<Node>,
    kind: NodeType,
    eps: i64,
)
    ensures
        forall|k: int|
            0 <= k < spec_delta_nodes(anodes, bnodes, kind, eps).len() ==> exists|i: int, j: int|
                {
                    &&& 0 <= i < anodes.len()
                    &&& 0 <= j < bnodes.len()
                    &&& is_cand(anodes[i], kind)
                    &&& #[trigger] is_match(bnodes[j], kind, anodes[i].uid->0)
                    &&& (#[trigger] spec_delta_nodes(anodes, bnodes, kind, eps)[k]).uid
                        == anodes[i].uid
                },
    decreases anodes,
{
    if anodes.len() > 0 {
        lemma_delta_matched_by_identity(anodes.drop_last(), bnodes, kind, eps);
        let d = spec_delta_nodes(anodes, bnodes, kind, eps);
        let rest = spec_delta_nodes(anodes.drop_last(), bnodes, kind, eps);
        let n = anodes.last();
        assert(forall|i: int|
            0 <= i < anodes.len() - 1 ==> #[trigger] anodes.drop_last()[i] == anodes[i]);
        assert forall|k: int|
            0 <= k < d.len() implies exists|i: int, j: int|
            {
                &&& 0 <= i < anodes.len()
                &&& 0 <= j < bnodes.len()
                &&& is_cand(anodes[i], kind)
                &&& #[trigger] is_match(bnodes[j], kind, anodes[i].uid->0)
                &&& (#[trigger] d[k]).uid == anodes[i].uid
            } by {
            if spec_emits(n, bnodes, kind, eps) && k == d.len() - 1 {
                lemma_lookup_idx_props(bnodes, kind, n.uid->0);
                let j = spec_lookup_idx(bnodes, kind, n.uid->0)->0;
                let i = anodes.len() - 1;
                assert(is_cand(anodes[i], kind));
                assert(is_match(bnodes[j], kind, anodes[i].uid->0));
                assert(d[k].uid == anodes[i].uid);
            } else {
                assert(d[k] == rest[k]);
                let (i, j) = choose|i: int, j: int|
                    {
                        &&& 0 <= i < anodes.drop_last().len()
                        &&& 0 <= j < bnodes.len()
                        &&& is_cand(anodes.drop_last()[i], kind)
                        &&& #[trigger] is_match(bnodes[j], kind, anodes.drop_last()[i].uid->0)
                        &&& (#[trigger] rest[k]).uid == anodes.drop_last()[i].uid
                    };
                assert(anodes[i] == anodes.drop_last()[i]);
            }
        }
    }
}

// ---------------------------------------------------------------------------
// Insertion codes disambiguate residue identities
// ---------------------------------------------------------------------------
/// A residue identity without an insertion code and the same identity with
/// one are distinct keys, and looking one of them up never yields a node
/// keyed by the other.
pub proof fn lemma_insertion_code_distinct(
    s: Seq<Node>,
    kind: NodeType,
    chain: char,
    number: i32,
    ins: char,
)
    ensures
        !uid_eq(
            NodeUid::Residue { chain, number, insertion: None },
            NodeUid::Residue { chain, number, insertion: Some(ins) },
        ),
        match spec_lookup_idx(s, kind, NodeUid::Residue { chain, number, insertion: None }) {
            Some(j) => !uid_opt_eq(
                s[j].uid,
                Some(NodeUid::Residue { chain, number, insertion: Some(ins) }),
            ),
            None => true,
        },
{
    let u1 = NodeUid::Residue { chain, number, insertion: None };
    let u2 = NodeUid::Residue { chain, number, insertion: Some(ins) };
    lemma_lookup_idx_props(s, kind, u1);
    match spec_lookup_idx(s, kind, u1) {
        Some(j) => {
            if uid_opt_eq(s[j].uid, Some(u2)) {
                let w = s[j].uid->0;
                lemma_uid_eq_sym(w, u1);
                lemma_uid_eq_trans(u1, w, u2);
                assert(false);
            }
        },
        None => {},
    }
}

// ---------------------------------------------------------------------------
// Built trees are well-formed
// ---------------------------------------------------------------------------
/// Keyed insertion keeps sibling identities distinct, and every element of
/// the result is the inserted tree or one already present.
pub proof fn lemma_insert_keyed(kids: Seq<SasaTree>, c: SasaTree)
    requires
        forall|i: int, j: int|
            0 <= i < j < kids.len() ==> !uid_opt_eq(
                #[trigger] kids[i].node.uid,
                #[trigger] kids[j].node.uid,
            ),
    ensures
        forall|k: int|
            0 <= k < spec_insert_child(kids, c).len() ==> (#[trigger] spec_insert_child(kids, c)[k])
                == c || (exists|i: int| 0 <= i < kids.len() && spec_insert_child(kids, c)[k] == #[trigger] kids[i]),
        forall|x: int, y: int|
            0 <= x < y < spec_insert_child(kids, c).len() ==> !uid_opt_eq(
                #[trigger] spec_insert_child(kids, c)[x].node.uid,
                #[trigger] spec_insert_child(kids, c)[y].node.uid,
            ),
{
    let res = spec_insert_child(kids, c);
    if exists|j: int| 0 <= j < kids.len() && uid_opt_eq(#[trigger] kids[j].node.uid, c.node.uid) {
        let j = choose|j: int|
            0 <= j < kids.len() && uid_opt_eq(#[trigger] kids[j].node.uid, c.node.uid);
        assert(res == kids.update(j, c));
        assert forall|x: int, y: int| 0 <= x < y < res.len() implies !uid_opt_eq(
            #[trigger] res[x].node.uid,
            #[trigger] res[y].node.uid,
        ) by {
            if x == j || y == j {
                let other = if x == j {
                    y
                } else {
                    x
                };
                if uid_opt_eq(res[x].node.uid, res[y].node.uid) {
                    let ou = kids[other].node.uid->0;
                    let cu = c.node.uid->0;
                    let ju = kids[j].node.uid->0;
                    lemma_uid_eq_sym(ou, cu);
                    lemma_uid_eq_sym(cu, ou);
                    lemma_uid_eq_sym(ju, cu);
                    lemma_uid_eq_trans(ou, cu, ju);
                    lemma_uid_eq_trans(ju, cu, ou);
                    assert(false);
                }
            }
        }
    } else {
        assert(res == kids.push(c));
        assert(forall|i: int| 0 <= i < kids.len() ==> #[trigger] res[i] == kids[i]);
        assert(res[kids.len() as int] == c);
    }
}

/// A tree built from a buildable raw subtree is well-formed at its scope.
pub proof fn lemma_builds_wf(scope: Scope, model: i32, raw: RawNode, depth: NodeType, t: SasaTree)
    requires
        spec_buildable(scope, raw, depth),
        builds(scope, model, raw, depth, t),
    ensures
        wf_in(scope, t),
    decreases raw, 1int,
{
    assert(node_scope_ok(scope, t.node));
    if raw.kind == depth || raw.kind == NodeType::Atom {
    } else {
        let cs = spec_child_scope(scope, raw);
        assert(scope_of(t.node) == cs);
        assert(cs != Scope::Top);
        lemma_builds_forest_wf(cs, spec_child_model(model, raw), raw.children@, depth, t.children@);
    }
}

/// Forest version: the built children are well-formed one scope below and
/// keyed by distinct identities.
pub proof fn lemma_builds_forest_wf(
    scope: Scope,
    model: i32,
    raws: Seq<RawNode>,
    depth: NodeType,
    kids: Seq<SasaTree>,
)
    requires
        scope != Scope::Top,
        forall|i: int| 0 <= i < raws.len() ==> spec_buildable(scope, #[trigger] raws[i], depth),
        builds_forest(scope, model, raws, depth, kids),
    ensures
        forall|k: int| 0 <= k < kids.len() ==> wf_in(scope, #[trigger] kids[k]),
        forall|x: int, y: int|
            0 <= x < y < kids.len() ==> !uid_opt_eq(
                #[trigger] kids[x].node.uid,
                #[trigger] kids[y].node.uid,
            ),
    decreases raws, 0int,
{
    if raws.len() > 0 {
        let (prev, c) = choose|prev: Seq<SasaTree>, c: SasaTree|
            {
                &&& builds_forest(scope, model, raws.drop_last(), depth, prev)
                &&& builds(scope, model, raws.last(), depth, c)
                &&& kids == #[trigger] spec_insert_child(prev, c)
            };
        assert(forall|i: int|
            0 <= i < raws.len() - 1 ==> #[trigger] raws.drop_last()[i] == raws[i]);
        lemma_builds_forest_wf(scope, model, raws.drop_last(), depth, prev);
        lemma_builds_wf(scope, model, raws.last(), depth, c);
        lemma_insert_keyed(prev, c);
        assert forall|k: int| 0 <= k < kids.len() implies wf_in(scope, #[trigger] kids[k]) by {
            if kids[k] == c {
            } else {
                let i = choose|i: int| 0 <= i < prev.len() && kids[k] == #[trigger] prev[i];
            }
        }
    }
}

// ---------------------------------------------------------------------------
// Round-trip completeness: atom counts survive building
// ---------------------------------------------------------------------------
/// The identity a raw node will be keyed by at a scope, when its fields
/// parse.
pub open spec fn spec_raw_uid(scope: Scope, raw: RawNode) -> Option<NodeUid> {
    match scope {
        Scope::Top => None,
        Scope::InStructure => match raw.name {
            Some(l) => match spec_parse_chain_label(l@) {
                Some(c) => Some(NodeUid::Chain { chain: c }),
                None => None,
            },
            None => None,
        },
        Scope::InChain(c) => match raw.residue_number {
            Some(num) => match spec_parse_residue_field(num@) {
                Some(rid) => Some(NodeUid::Residue { chain: c, number: rid.0, insertion: rid.1 }),
                None => None,
            },
            None => None,
        },
        Scope::InResidue(c, n, i) => match raw.name {
            Some(nm) => Some(NodeUid::Atom { chain: c, number: n, insertion: i, name: nm }),
            None => None,
        },
    }
}

/// Sibling identities pairwise distinct throughout the region of a raw tree
/// that building visits.
pub open spec fn raw_unique(scope: Scope, raw: RawNode, depth: NodeType) -> bool
    decreases raw,
{
    if raw.kind == depth || raw.kind == NodeType::Atom {
        true
    } else {
        let cs = spec_child_scope(scope, raw);
        &&& (forall|i: int, j: int|
            0 <= i < j < raw.children@.len() ==> !uid_opt_eq(
                spec_raw_uid(cs, #[trigger] raw.children@[i]),
                spec_raw_uid(cs, #[trigger] raw.children@[j]),
            ))
        &&& (forall|i: int|
            0 <= i < raw.children@.len() ==> raw_unique(cs, #[trigger] raw.children@[i], depth))
    }
}

/// A built node is keyed by the identity parsed from its raw node.
proof fn lemma_built_uid(scope: Scope, model: i32, raw: RawNode, n: Node)
    requires
        scope != Scope::Top,
        spec_buildable_node(scope, raw),
        spec_built_node(scope, model, raw, n),
    ensures
        spec_raw_uid(scope, raw) is Some,
        uid_opt_eq(n.uid, spec_raw_uid(scope, raw)),
{
}

/// Number of atom nodes in an owned tree.
pub open spec fn tree_atom_count(t: SasaTree) -> int
    decreases t,
{
    (if t.node.nodetype == NodeType::Atom {
        1int
    } else {
        0int
    }) + forest_atom_count(t.children@)
}

/// Number of atom nodes in an owned forest.
pub open spec fn forest_atom_count(f: Seq<SasaTree>) -> int
    decreases f,
{
    if f.len() == 0 {
        0
    } else {
        forest_atom_count(f.drop_last()) + tree_atom_count(f.last())
    }
}

/// Number of atom nodes a raw subtree presents to the builder.
pub open spec fn raw_atom_count(raw: RawNode) -> int
    decreases raw,
{
    if raw.kind == NodeType::Atom {
        1
    } else {
        raw_forest_atom_count(raw.children@)
    }
}

/// Number of atom nodes a raw sibling list presents to the builder.
pub open spec fn raw_forest_atom_count(rs: Seq<RawNode>) -> int
    decreases rs,
{
    if rs.len() == 0 {
        0
    } else {
        raw_forest_atom_count(rs.drop_last()) + raw_atom_count(rs.last())
    }
}

/// With distinct sibling identities nothing is replaced: the built children
/// correspond to the raw children one for one, in order.
proof fn lemma_builds_pointwise(
    scope: Scope,
    model: i32,
    raws: Seq<RawNode>,
    depth: NodeType,
    kids: Seq<SasaTree>,
)
    requires
        scope != Scope::Top,
        forall|i: int| 0 <= i < raws.len() ==> spec_buildable(scope, #[trigger] raws[i], depth),
        forall|i: int, j: int|
            0 <= i < j < raws.len() ==> !uid_opt_eq(
                spec_raw_uid(scope, #[trigger] raws[i]),
                spec_raw_uid(scope, #[trigger] raws[j]),
            ),
        builds_forest(scope, model, raws, depth, kids),
    ensures
        kids.len() == raws.len(),
        forall|i: int|
            0 <= i < raws.len() ==> builds(scope, model, #[trigger] raws[i], depth, kids[i]),
    decreases raws,
{
    if raws.len() > 0 {
        let (prev, c) = choose|prev: Seq<SasaTree>, c: SasaTree|
            {
                &&& builds_forest(scope, model, raws.drop_last(), depth, prev)
                &&& builds(scope, model, raws.last(), depth, c)
                &&& kids == #[trigger] spec_insert_child(prev, c)
            };
        assert(forall|i: int|
            0 <= i < raws.len() - 1 ==> #[trigger] raws.drop_last()[i] == raws[i]);
        lemma_builds_pointwise(scope, model, raws.drop_last(), depth, prev);
        if exists|j: int| 0 <= j < prev.len() && uid_opt_eq(#[trigger] prev[j].node.uid, c.node.uid) {
            let j = choose|j: int|
                0 <= j < prev.len() && uid_opt_eq(#[trigger] prev[j].node.uid, c.node.uid);
            assert(raws.drop_last()[j] == raws[j]);
            assert(builds(scope, model, raws.drop_last()[j], depth, prev[j]));
            assert(builds(scope, model, raws[j], depth, prev[j]));
            lemma_built_uid(scope, model, raws[j], prev[j].node);
            lemma_built_uid(scope, model, raws.last(), c.node);
            let ju = prev[j].node.uid->0;
            let cu = c.node.uid->0;
            let rj = spec_raw_uid(scope, raws[j])->0;
            let rl = spec_raw_uid(scope, raws.last())->0;
            lemma_uid_eq_sym(ju, rj);
            lemma_uid_eq_trans(rj, ju, cu);
            lemma_uid_eq_trans(rj, cu, rl);
            assert(uid_opt_eq(spec_raw_uid(scope, raws[j]), spec_raw_uid(scope, raws.last())));
            assert(false);
        }
        assert(kids == prev.push(c));
        assert(forall|i: int| 0 <= i < prev.len() ==> #[trigger] kids[i] == prev[i]);
        assert(kids[raws.len() - 1] == c);
        assert forall|i: int|
            0 <= i < raws.len() implies builds(scope, model, #[trigger] raws[i], depth, kids[i]) by {
            if i < raws.len() - 1 {
                assert(raws.drop_last()[i] == raws[i]);
                assert(kids[i] == prev[i]);
                assert(builds(scope, model, raws.drop_last()[i], depth, prev[i]));
            } else {
                assert(kids[i] == c);
                assert(raws.last() == raws[i]);
            }
        }
    }
}

/// Building to atom depth keeps the atom count, node for node.
proof fn lemma_builds_count(scope: Scope, model: i32, raw: RawNode, t: SasaTree)
    requires
        spec_buildable(scope, raw, NodeType::Atom),
        raw_unique(scope, raw, NodeType::Atom),
        builds(scope, model, raw, NodeType::Atom, t),
    ensures
        tree_atom_count(t) == raw_atom_count(raw),
    decreases raw, 1int,
{
    if raw.kind == NodeType::Atom {
        assert(t.node.nodetype == NodeType::Atom);
        assert(t.children@.len() == 0);
        assert(forest_atom_count(t.children@) == 0);
    } else {
        assert(t.node.nodetype != NodeType::Atom);
        let cs = spec_child_scope(scope, raw);
        let cm = spec_child_model(model, raw);
        assert(cs != Scope::Top);
        lemma_builds_pointwise(cs, cm, raw.children@, NodeType::Atom, t.children@);
        lemma_forest_count(cs, cm, raw.children@, t.children@);
    }
}

proof fn lemma_forest_count(scope: Scope, model: i32, raws: Seq<RawNode>, kids: Seq<SasaTree>)
    requires
        scope != Scope::Top,
        kids.len() == raws.len(),
        forall|i: int|
            0 <= i < raws.len() ==> spec_buildable(scope, #[trigger] raws[i], NodeType::Atom),
        forall|i: int|
            0 <= i < raws.len() ==> raw_unique(scope, #[trigger] raws[i], NodeType::Atom),
        forall|i: int|
            0 <= i < raws.len() ==> builds(scope, model, #[trigger] raws[i], NodeType::Atom, kids[i]),
    ensures
        forest_atom_count(kids) == raw_forest_atom_count(raws),
    decreases raws, 0int,
{
    if raws.len() > 0 {
        assert(forall|i: int|
            0 <= i < raws.len() - 1 ==> #[trigger] raws.drop_last()[i] == raws[i]);
        assert(forall|i: int|
            0 <= i < kids.len() - 1 ==> #[trigger] kids.drop_last()[i] == kids[i]);
        lemma_forest_count(scope, model, raws.drop_last(), kids.drop_last());
        lemma_builds_count(scope, model, raws.last(), kids.last());
    }
}

/// Round-trip completeness: a tree built to atom depth holds exactly one
/// atom node for every atom the raw structure presents, as long as sibling
/// identities are unique.
pub proof fn lemma_round_trip_atom_count(model: i32, raw: RawNode, t: SasaTree)
    requires
        spec_buildable(Scope::Top, raw, NodeType::Atom),
        raw_unique(Scope::Top, raw, NodeType::Atom),
        builds(Scope::Top, model, raw, NodeType::Atom, t),
    ensures
        tree_atom_count(t) == raw_atom_count(raw),
{
    lemma_builds_count(Scope::Top, model, raw, t);
}

} // verus!
