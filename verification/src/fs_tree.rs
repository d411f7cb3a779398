use vstd::prelude::*;

use crate::error::FreesasaError;
use crate::error::FreesasaErrorKind;
use crate::node::NodeType;
use crate::raw::RawNode;

verus! {

/// The engine's status code for success.
pub const FS_SUCCESS: i32 = 0;

/// The engine's status code for a hard failure.
pub const FS_FAIL: i32 = -1;

/// The engine's status code for a warning; results may still be meaningful.
pub const FS_WARN: i32 = -2;

/// Reads the engine's status code from joining two native trees: success
/// gives `Ok(false)`; a warning is treated as success and gives `Ok(true)`
/// so the caller can report it; anything else is a join failure carrying the
/// code.
pub fn interpret_join_code(code: i32) -> (r: Result<bool, FreesasaError>)
    ensures
        code == FS_SUCCESS ==> r == Ok::<bool, FreesasaError>(false),
        code == FS_WARN ==> r == Ok::<bool, FreesasaError>(true),
        !(code == FS_SUCCESS || code == FS_WARN) ==> (r matches Err(e) && e.kind == Some(
            FreesasaErrorKind::JoinFailed,
        ) && e.code == Some(code)),
{
    if code == FS_SUCCESS {
        Ok(false)
    } else if code == FS_WARN {
        Ok(true)
    } else {
        Err(
            FreesasaError::new(
                "the native join of two result trees failed",
                Some(FreesasaErrorKind::JoinFailed),
                Some(code),
            ),
        )
    }
}

/// A node's display name: its name field, or `NoName` when absent.
pub open spec fn spec_node_name(n: RawNode) -> Seq<char> {
    match n.name {
        Some(s) => s@,
        None => "NoName"@,
    }
}

/// A node's total area; a missing area counts as zero.
pub open spec fn spec_node_total(n: RawNode) -> int {
    match n.area {
        Some(a) => a.total as int,
        None => 0,
    }
}

/// The sibling list found by descending first children until the children
/// are of the wanted kind.
pub open spec fn spec_find_level(n: RawNode, kind: NodeType) -> Option<Seq<RawNode>>
    decreases n,
{
    if n.children@.len() > 0 && n.children@[0].kind == kind {
        Some(n.children@)
    } else if n.children@.len() > 0 {
        spec_find_level(n.children@[0], kind)
    } else {
        None
    }
}

/// The sibling list at a kind, or nothing at all.
pub open spec fn spec_level_or_empty(n: RawNode, kind: NodeType) -> Seq<RawNode> {
    match spec_find_level(n, kind) {
        Some(s) => s,
        None => Seq::empty(),
    }
}

/// The first index in `others` whose node has the given name.
pub open spec fn spec_name_idx(others: Seq<RawNode>, name: Seq<char>) -> Option<int>
    decreases others,
{
    if others.len() == 0 {
        None
    } else if spec_node_name(others[0]) == name {
        Some(0)
    } else {
        match spec_name_idx(others.drop_first(), name) {
            Some(j) => Some(j + 1),
            None => None,
        }
    }
}

/// The index pairs of same-named nodes whose total areas differ: for each
/// node of `sibs`, in order, the first node of `others` with the same name,
/// kept when the totals are not equal.
pub open spec fn spec_diff_pairs(sibs: Seq<RawNode>, others: Seq<RawNode>) -> Seq<(int, int)>
    decreases sibs,
{
    if sibs.len() == 0 {
        Seq::empty()
    } else {
        let rest = spec_diff_pairs(sibs.drop_last(), others);
        let i = sibs.len() - 1;
        match spec_name_idx(others, spec_node_name(sibs[i])) {
            Some(j) => if spec_node_total(sibs[i]) != spec_node_total(others[j]) {
                rest.push((i, j))
            } else {
                rest
            },
            None => rest,
        }
    }
}

/// The labels one differing chain contributes: `chain:residue` for each of
/// its residues that differs in the other chain.
pub open spec fn spec_chain_block(ca: RawNode, cb: RawNode) -> Seq<Seq<char>> {
    let ra = spec_level_or_empty(ca, NodeType::Residue);
    let rb = spec_level_or_empty(cb, NodeType::Residue);
    spec_diff_pairs(ra, rb).map_values(
        |p: (int, int)| spec_node_name(ca) + seq![':'] + spec_node_name(ra[p.0]),
    )
}

/// All labels the subtree comparison reports, chain by differing chain.
pub open spec fn spec_blocks(
    ca: Seq<RawNode>,
    cb: Seq<RawNode>,
    pairs: Seq<(int, int)>,
) -> Seq<Seq<char>>
    decreases pairs,
{
    if pairs.len() == 0 {
        Seq::empty()
    } else {
        spec_blocks(ca, cb, pairs.drop_last()) + spec_chain_block(
            ca[pairs.last().0],
            cb[pairs.last().1],
        )
    }
}

/// What `get_subtree_difference` returns: the concatenated per-chain label
/// blocks over the chains whose totals differ.
pub open spec fn spec_subtree_diff(a: RawNode, b: RawNode) -> Seq<Seq<char>> {
    let ca = spec_level_or_empty(a, NodeType::Chain);
    let cb = spec_level_or_empty(b, NodeType::Chain);
    spec_blocks(ca, cb, spec_diff_pairs(ca, cb))
}

/// Pointwise character equality of a label list.
pub open spec fn labels_eq(r: Seq<String>, s: Seq<Seq<char>>) -> bool {
    r.len() == s.len() && forall|k: int| 0 <= k < r.len() ==> (#[trigger] r[k])@ == s[k]
}

fn get_node_name(node: &RawNode) -> (r: String)
    ensures
        r@ == spec_node_name(*node),
{
    match &node.name {
        Some(s) => s.clone(),
        None => {
            let r = String::from_str("NoName");
            proof {
                reveal_strlit("NoName");
            }
            r
        },
    }
}

fn get_node_area(node: &RawNode) -> (r: i64)
    ensures
        r as int == spec_node_total(*node),
{
    match &node.area {
        Some(a) => a.total,
        None => 0,
    }
}

fn find_level<'a>(node: &'a RawNode, kind: NodeType) -> (r: Option<&'a Vec<RawNode>>)
    ensures
        match r {
            Some(v) => spec_find_level(*node, kind) == Some(v@),
            None => spec_find_level(*node, kind) is None,
        },
    decreases *node,
{
    if node.children.len() > 0 {
        if node.children[0].kind == kind {
            Some(&node.children)
        } else {
            proof {
                assert(decreases_to!(*node => node.children@[0]));
            }
            find_level(&node.children[0], kind)
        }
    } else {
        None
    }
}

fn name_idx(others: &Vec<RawNode>, name: &String) -> (r: Option<usize>)
    ensures
        match r {
            Some(j) => j < others@.len() && spec_name_idx(others@, name@) == Some(j as int),
            None => spec_name_idx(others@, name@) is None,
        },
{
    let n = others.len();
    let mut j: usize = 0;
    while j < n
        invariant
            j <= n,
            n == others@.len(),
            forall|x: int| 0 <= x < j ==> spec_node_name(#[trigger] others@[x]) != name@,
        decreases n - j,
    {
        let other_name = get_node_name(&others[j]);
        if other_name.eq(name) {
            proof {
                lemma_name_idx_first(others@, name@, j as int);
            }
            return Some(j);
        }
        j += 1;
    }
    proof {
        lemma_name_idx_none(others@, name@);
    }
    None
}

proof fn lemma_name_idx_first(s: Seq<RawNode>, name: Seq<char>, i: int)
    requires
        0 <= i < s.len(),
        spec_node_name(s[i]) == name,
        forall|x: int| 0 <= x < i ==> spec_node_name(#[trigger] s[x]) != name,
    ensures
        spec_name_idx(s, name) == Some(i),
    decreases s,
{
    if i > 0 {
        let t = s.drop_first();
        assert(forall|x: int| 0 <= x < t.len() ==> #[trigger] t[x] == s[x + 1]);
        lemma_name_idx_first(t, name, i - 1);
    }
}

proof fn lemma_name_idx_none(s: Seq<RawNode>, name: Seq<char>)
    requires
        forall|x: int| 0 <= x < s.len() ==> spec_node_name(#[trigger] s[x]) != name,
    ensures
        spec_name_idx(s, name) is None,
    decreases s,
{
    if s.len() > 0 {
        let t = s.drop_first();
        assert(forall|x: int| 0 <= x < t.len() ==> #[trigger] t[x] == s[x + 1]);
        lemma_name_idx_none(t, name);
    }
}

/// For each node of `sibs`, in order, finds the first same-named node of
/// `others` and keeps the pair when their total areas differ.
fn nodes_with_differences(sibs: &Vec<RawNode>, others: &Vec<RawNode>) -> (r: Vec<(usize, usize)>)
    ensures
        r@.len() == spec_diff_pairs(sibs@, others@).len(),
        forall|k: int|
            0 <= k < r@.len() ==> (#[trigger] r@[k]).0 as int == spec_diff_pairs(
                sibs@,
                others@,
            )[k].0 && r@[k].1 as int == spec_diff_pairs(sibs@, others@)[k].1,
{
    let n = sibs.len();
    let mut out: Vec<(usize, usize)> = Vec::new();
    let mut i: usize = 0;
    while i < n
        invariant
            i <= n,
            n == sibs@.len(),
            out@.len() == spec_diff_pairs(sibs@.take(i as int), others@).len(),
            forall|k: int|
                0 <= k < out@.len() ==> (#[trigger] out@[k]).0 as int == spec_diff_pairs(
                    sibs@.take(i as int),
                    others@,
                )[k].0 && out@[k].1 as int == spec_diff_pairs(sibs@.take(i as int), others@)[k].1,
        decreases n - i,
    {
        proof {
            assert(sibs@.take(i + 1).drop_last() =~= sibs@.take(i as int));
            assert(sibs@.take(i + 1)[i as int] == sibs@[i as int]);
        }
        let name = get_node_name(&sibs[i]);
        let area = get_node_area(&sibs[i]);
        match name_idx(others, &name) {
            Some(j) => {
                let other_area = get_node_area(&others[j]);
                if area != other_area {
                    out.push((i, j));
                }
            },
            None => {},
        }
        i += 1;
    }
    proof {
        assert(sibs@.take(n as int) =~= sibs@);
    }
    out
}

/// An owned copy of one native result tree, for the sibling-level diff.
#[derive(Debug)]
pub struct FSResultTree {
    pub root: RawNode,
}

impl FSResultTree {
    /// Wraps the copied native root; a missing root (the engine returned
    /// null) is an error.
    pub fn new(root: Option<RawNode>) -> (r: Result<FSResultTree, FreesasaError>)
        ensures
            match r {
                Ok(t) => root matches Some(n) && t.root == n,
                Err(e) => root is None && e.kind == Some(
                    FreesasaErrorKind::NativeTreeConstructionFailed,
                ),
            },
    {
        match root {
            Some(n) => Ok(FSResultTree { root: n }),
            None => Err(
                FreesasaError::new(
                    "the root of the native result tree was null",
                    Some(FreesasaErrorKind::NativeTreeConstructionFailed),
                    None,
                ),
            ),
        }
    }

    /// Reports the residues whose total area differs between this tree and a
    /// subtree of it, as `chain:residue` labels: the chains whose totals
    /// differ are found first, then only their residues are compared, each
    /// matched to the first same-named residue of the other chain.
    pub fn get_subtree_difference(&self, subtree: &FSResultTree) -> (r: Vec<String>)
        ensures
            labels_eq(r@, spec_subtree_diff(self.root, subtree.root)),
    {
        let empty: Vec<RawNode> = Vec::new();
        let chains_a = match find_level(&self.root, NodeType::Chain) {
            Some(v) => v,
            None => &empty,
        };
        let chains_b = match find_level(&subtree.root, NodeType::Chain) {
            Some(v) => v,
            None => &empty,
        };
        proof {
            assert(chains_a@ == spec_level_or_empty(self.root, NodeType::Chain));
            assert(chains_b@ == spec_level_or_empty(subtree.root, NodeType::Chain));
        }
        let pairs = nodes_with_differences(chains_a, chains_b);
        let ghost spairs = spec_diff_pairs(chains_a@, chains_b@);
        proof {
            lemma_diff_pairs_bounds(chains_a@, chains_b@);
        }
        let mut out: Vec<String> = Vec::new();
        let np = pairs.len();
        let mut p: usize = 0;
        while p < np
            invariant
                p <= np,
                np == pairs@.len(),
                pairs@.len() == spairs.len(),
                forall|k: int|
                    0 <= k < spairs.len() ==> (#[trigger] pairs@[k]).0 as int == spairs[k].0
                        && pairs@[k].1 as int == spairs[k].1,
                forall|k: int|
                    0 <= k < spairs.len() ==> 0 <= #[trigger] spairs[k].0 < chains_a@.len() && 0
                        <= spairs[k].1 < chains_b@.len(),
                chains_a@ == spec_level_or_empty(self.root, NodeType::Chain),
                chains_b@ == spec_level_or_empty(subtree.root, NodeType::Chain),
                empty@.len() == 0,
                labels_eq(out@, spec_blocks(chains_a@, chains_b@, spairs.take(p as int))),
            decreases np - p,
        {
            proof {
                assert((pairs@[p as int]).0 as int == spairs[p as int].0);
                assert((pairs@[p as int]).1 as int == spairs[p as int].1);
            }
            proof {
                assert(spairs.take(p + 1).drop_last() =~= spairs.take(p as int));
                assert(spairs.take(p + 1).last() == spairs[p as int]);
            }
            let (ci, cj) = pairs[p];
            let chain_a = &chains_a[ci];
            let chain_b = &chains_b[cj];
            let chain_name = get_node_name(chain_a);
            let res_a = match find_level(chain_a, NodeType::Residue) {
                Some(v) => v,
                None => &empty,
            };
            let res_b = match find_level(chain_b, NodeType::Residue) {
                Some(v) => v,
                None => &empty,
            };
            proof {
                assert(res_a@ == spec_level_or_empty(chains_a@[ci as int], NodeType::Residue));
                assert(res_b@ == spec_level_or_empty(chains_b@[cj as int], NodeType::Residue));
            }
            let rpairs = nodes_with_differences(res_a, res_b);
            let ghost srpairs = spec_diff_pairs(res_a@, res_b@);
            proof {
                lemma_diff_pairs_bounds(res_a@, res_b@);
            }
            let ghost block = spec_chain_block(chains_a@[ci as int], chains_b@[cj as int]);
            let nr = rpairs.len();
            let mut q: usize = 0;
            while q < nr
                invariant
                    q <= nr,
                    nr == rpairs@.len(),
                    rpairs@.len() == srpairs.len(),
                    forall|k: int|
                        0 <= k < srpairs.len() ==> (#[trigger] rpairs@[k]).0 as int == srpairs[k].0
                            && rpairs@[k].1 as int == srpairs[k].1,
                    forall|k: int|
                        0 <= k < srpairs.len() ==> 0 <= #[trigger] srpairs[k].0 < res_a@.len() && 0
                            <= srpairs[k].1 < res_b@.len(),
                    res_a@ == spec_level_or_empty(chains_a@[ci as int], NodeType::Residue),
                    res_b@ == spec_level_or_empty(chains_b@[cj as int], NodeType::Residue),
                    srpairs == spec_diff_pairs(res_a@, res_b@),
                    block == spec_chain_block(chains_a@[ci as int], chains_b@[cj as int]),
                    block.len() == srpairs.len(),
                    chain_name@ == spec_node_name(chains_a@[ci as int]),
                    ci < chains_a@.len(),
                    cj < chains_b@.len(),
                    empty@.len() == 0,
                    labels_eq(
                        out@,
                        spec_blocks(chains_a@, chains_b@, spairs.take(p as int)) + block.take(
                            q as int,
                        ),
                    ),
                decreases nr - q,
            {
                let (ri, _rj) = rpairs[q];
                let mut label = chain_name.clone();
                label.append(":");
                let res_name = get_node_name(&res_a[ri]);
                label.append(res_name.as_str());
                proof {
                    reveal_strlit(":");
                    assert(label@ =~= block[q as int]);
                    assert(block.take(q + 1) =~= block.take(q as int).push(block[q as int]));
                }
                out.push(label);
                q += 1;
            }
            proof {
                assert(block.take(nr as int) =~= block);
                assert(spec_blocks(chains_a@, chains_b@, spairs.take(p + 1)) == spec_blocks(
                    chains_a@,
                    chains_b@,
                    spairs.take(p as int),
                ) + block);
            }
            p += 1;
        }
        proof {
            assert(spairs.take(np as int) =~= spairs);
            assert(labels_eq(out@, spec_blocks(chains_a@, chains_b@, spairs)));
            assert(spec_subtree_diff(self.root, subtree.root) == spec_blocks(
                chains_a@,
                chains_b@,
                spairs,
            ));
        }
        out
    }
}

/// The indices a sibling diff reports are in range on both sides.
proof fn lemma_diff_pairs_bounds(sibs: Seq<RawNode>, others: Seq<RawNode>)
    ensures
        forall|k: int|
            0 <= k < spec_diff_pairs(sibs, others).len() ==> 0 <= (#[trigger] spec_diff_pairs(
                sibs,
                others,
            )[k]).0 < sibs.len() && 0 <= spec_diff_pairs(sibs, others)[k].1 < others.len(),
    decreases sibs,
{
    if sibs.len() > 0 {
        lemma_diff_pairs_bounds(sibs.drop_last(), others);
        let i = sibs.len() - 1;
        let full = spec_diff_pairs(sibs, others);
        let rest = spec_diff_pairs(sibs.drop_last(), others);
        match spec_name_idx(others, spec_node_name(sibs[i])) {
            Some(_) => {
                lemma_name_idx_bounds(others, spec_node_name(sibs[i]));
            },
            None => {},
        }
        assert forall|k: int| 0 <= k < full.len() implies 0 <= (#[trigger] full[k]).0 < sibs.len()
            && 0 <= full[k].1 < others.len() by {
            if k < rest.len() {
                assert(full[k] == rest[k]);
            }
        }
    }
}

proof fn lemma_name_idx_bounds(others: Seq<RawNode>, name: Seq<char>)
    ensures
        match spec_name_idx(others, name) {
            Some(j) => 0 <= j < others.len(),
            None => true,
        },
    decreases others,
{
    if others.len() > 0 && spec_node_name(others[0]) != name {
        lemma_name_idx_bounds(others.drop_first(), name);
    }
}

} // verus!
