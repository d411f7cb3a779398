use freesasa_rs::FSResultTree;
use freesasa_rs::FreesasaErrorKind;
use freesasa_rs::NodeArea;
use freesasa_rs::NodeType;
use freesasa_rs::NodeUid;
use freesasa_rs::RawNode;
use freesasa_rs::SasaTree;
use freesasa_rs::interpret_join_code;

fn area(total: i64) -> NodeArea {
    NodeArea::new(total, 0, 0, 0, 0, 0)
}

fn raw(kind: NodeType, name: &str, total: i64, children: Vec<RawNode>) -> RawNode {
    let mut n = RawNode::empty();
    n.kind = kind;
    n.name = Some(name.to_string());
    n.area = Some(area(total));
    n.children = children;
    n
}

fn raw_atom(name: &str, total: i64) -> RawNode {
    raw(NodeType::Atom, name, total, Vec::new())
}

fn raw_residue(number: &str, name: &str, total: i64, atoms: Vec<RawNode>) -> RawNode {
    let mut n = raw(NodeType::Residue, name, total, atoms);
    n.residue_number = Some(number.to_string());
    n
}

fn raw_chain(label: &str, total: i64, residues: Vec<RawNode>) -> RawNode {
    raw(NodeType::Chain, label, total, residues)
}

fn raw_structure(total: i64, chains: Vec<RawNode>) -> RawNode {
    let mut n = raw(NodeType::Structure, "struct", total, chains);
    n.model = 1;
    n
}

fn raw_result(structure: RawNode) -> RawNode {
    let mut n = RawNode::empty();
    n.kind = NodeType::Result;
    n.classified_by = Some("protor".to_string());
    n.children = vec![structure];
    n
}

/// A two-chain structure: chain A with residues 1, 2; chain B with residue 1.
fn sample_raw() -> RawNode {
    raw_result(
        raw_structure(
            600,
            vec![
                raw_chain(
                    "A",
                    400,
                    vec![
                        raw_residue("1", "ALA", 250, vec![raw_atom("N", 100), raw_atom("CA", 150)]),
                        raw_residue("2", "GLY", 150, vec![raw_atom("N", 150)]),
                    ],
                ),
                raw_chain("B", 200, vec![raw_residue("1", "SER", 200, vec![raw_atom("O", 200)])]),
            ],
        ),
    )
}

#[test]
fn build_to_residue_depth() {
    let tree = SasaTree::new(&sample_raw(), &NodeType::Residue).unwrap();
    assert_eq!(tree.node().nodetype, NodeType::Structure);
    assert!(tree.node().uid.is_none());
    assert_eq!(tree.child_map().len(), 2);
    let chain_a = &tree.child_map()[0];
    assert_eq!(chain_a.node().nodetype, NodeType::Chain);
    assert_eq!(chain_a.node().uid.as_ref().unwrap().chain(), 'A');
    assert_eq!(chain_a.child_map().len(), 2);
    // residues are leaves at this depth
    assert_eq!(chain_a.child_map()[0].child_map().len(), 0);
}

#[test]
fn round_trip_atom_count() {
    // every atom of the structure appears as exactly one atom node
    let tree = SasaTree::new(&sample_raw(), &NodeType::Atom).unwrap();
    let atoms = tree
        .nodes()
        .into_iter()
        .filter(|n| n.nodetype == NodeType::Atom)
        .count();
    assert_eq!(atoms, 4);
}

#[test]
fn build_skips_result_wrapper() {
    let tree = SasaTree::new(&sample_raw(), &NodeType::Chain).unwrap();
    assert_eq!(tree.node().nodetype, NodeType::Structure);
    for child in tree.child_map() {
        assert_eq!(child.node().nodetype, NodeType::Chain);
        assert_eq!(child.child_map().len(), 0);
    }
}

#[test]
fn build_reports_bad_identities() {
    let bad_chain = raw_result(
        raw_structure(1, vec![raw_chain("AB", 1, vec![])]),
    );
    let e = SasaTree::new(&bad_chain, &NodeType::Residue).unwrap_err();
    assert_eq!(e.kind(), Some(FreesasaErrorKind::InvalidChainLabel));

    let bad_residue = raw_result(
        raw_structure(1, vec![raw_chain("A", 1, vec![raw_residue("abc", "ALA", 1, vec![])])]),
    );
    let e = SasaTree::new(&bad_residue, &NodeType::Residue).unwrap_err();
    assert_eq!(e.kind(), Some(FreesasaErrorKind::InvalidResidueNumber));

    let mut no_area = sample_raw();
    no_area.children[0].area = None;
    let e = SasaTree::new(&no_area, &NodeType::Residue).unwrap_err();
    assert_eq!(e.kind(), Some(FreesasaErrorKind::NullNativeField));

    let mut headless = RawNode::empty();
    headless.kind = NodeType::Root;
    let e = SasaTree::new(&headless, &NodeType::Residue).unwrap_err();
    assert_eq!(e.kind(), Some(FreesasaErrorKind::NativeTreeConstructionFailed));
}

#[test]
fn duplicate_sibling_replaces_earlier() {
    let two_same = raw_result(
        raw_structure(
            10,
            vec![raw_chain(
                "A",
                10,
                vec![
                    raw_residue("7", "ALA", 4, vec![]),
                    raw_residue("7", "GLY", 6, vec![]),
                ],
            )],
        ),
    );
    let tree = SasaTree::new(&two_same, &NodeType::Residue).unwrap();
    let chain = &tree.child_map()[0];
    assert_eq!(chain.child_map().len(), 1);
    // the later sibling won
    assert_eq!(chain.child_map()[0].node().area.unwrap().total(), 6);
}

#[test]
fn diff_against_self_is_empty() {
    let tree = SasaTree::new(&sample_raw(), &NodeType::Atom).unwrap();
    for kind in [NodeType::Chain, NodeType::Residue, NodeType::Atom] {
        assert!(tree.delta_nodes(&tree, kind, 0).is_empty());
        assert!(tree.delta_nodes(&tree, kind, 5).is_empty());
    }
}

/// Tree B lacks residue 2 of chain A and shifts every area up by 10:
/// matching must pair residues by identity, never by position.
#[test]
fn matching_is_identity_based() {
    let base = raw_result(
        raw_structure(
            60,
            vec![raw_chain(
                "X",
                60,
                vec![
                    raw_residue("1", "ALA", 10, vec![]),
                    raw_residue("2", "GLY", 20, vec![]),
                    raw_residue("3", "SER", 30, vec![]),
                    raw_residue("4", "THR", 40, vec![]),
                ],
            )],
        ),
    );
    let variant = raw_result(
        raw_structure(
            90,
            vec![raw_chain(
                "X",
                90,
                vec![
                    raw_residue("1", "ALA", 11, vec![]),
                    raw_residue("3", "SER", 33, vec![]),
                    raw_residue("4", "THR", 44, vec![]),
                ],
            )],
        ),
    );
    let a = SasaTree::new(&base, &NodeType::Residue).unwrap();
    let b = SasaTree::new(&variant, &NodeType::Residue).unwrap();
    let diffs = a.delta_nodes(&b, NodeType::Residue, 0);
    // residue 2 has no counterpart and is skipped, not mispaired
    assert_eq!(diffs.len(), 3);
    let expected = [(1, 1i64), (3, 3i64), (4, 4i64)];
    for (node, (number, delta)) in diffs.iter().zip(expected.iter()) {
        let uid = node.uid.as_ref().unwrap();
        assert_eq!(uid.chain(), 'X');
        assert_eq!(uid.res_id(), Some((*number, None)));
        assert_eq!(node.area.unwrap().total(), *delta);
        assert_eq!(node.nodetype, NodeType::Residue);
        assert!(node.properties.is_none());
    }
}

#[test]
fn tolerance_filters_small_differences() {
    let base = raw_result(
        raw_structure(
            30,
            vec![raw_chain(
                "X",
                30,
                vec![
                    raw_residue("1", "ALA", 10, vec![]),
                    raw_residue("2", "GLY", 20, vec![]),
                ],
            )],
        ),
    );
    let variant = raw_result(
        raw_structure(
            33,
            vec![raw_chain(
                "X",
                33,
                vec![
                    raw_residue("1", "ALA", 11, vec![]),
                    raw_residue("2", "GLY", 22, vec![]),
                ],
            )],
        ),
    );
    let a = SasaTree::new(&base, &NodeType::Residue).unwrap();
    let b = SasaTree::new(&variant, &NodeType::Residue).unwrap();
    let diffs = a.delta_nodes(&b, NodeType::Residue, 1);
    assert_eq!(diffs.len(), 1);
    assert_eq!(diffs[0].uid.as_ref().unwrap().res_id(), Some((2, None)));
}

/// Residues 10 and 10A never collide in the matching map.
#[test]
fn insertion_codes_never_collide_in_matching() {
    let make = |plain: i64, coded: i64| {
        raw_result(
            raw_structure(
                plain + coded,
                vec![raw_chain(
                    "A",
                    plain + coded,
                    vec![
                        raw_residue("10", "ALA", plain, vec![]),
                        raw_residue("10A", "GLY", coded, vec![]),
                    ],
                )],
            ),
        )
    };
    let a = SasaTree::new(&make(10, 20), &NodeType::Residue).unwrap();
    let b = SasaTree::new(&make(10, 25), &NodeType::Residue).unwrap();
    let diffs = a.delta_nodes(&b, NodeType::Residue, 0);
    // only the insertion-coded residue differs
    assert_eq!(diffs.len(), 1);
    let uid = diffs[0].uid.as_ref().unwrap();
    assert_eq!(uid.res_id(), Some((10, Some('A'))));
    assert_eq!(diffs[0].area.unwrap().total(), 5);
}

#[test]
fn predicate_trees_with_custom_closures() {
    let tree = SasaTree::new(&sample_raw(), &NodeType::Residue).unwrap();
    // keep everything: op = other - self, predicate accepts all
    let all = tree.predicate_trees(
        &tree,
        NodeType::Residue,
        &|a: NodeArea, b: NodeArea| b.sub(&a),
        &|_d: NodeArea| true,
    );
    assert_eq!(all.len(), 3);
    for node in &all {
        assert_eq!(node.area.unwrap().total(), 0);
    }
    // a self-comparison with a nonzero threshold keeps nothing
    let none = tree.predicate_trees(
        &tree,
        NodeType::Residue,
        &|a: NodeArea, b: NodeArea| b.sub(&a),
        &|d: NodeArea| d.total() > 0,
    );
    assert!(none.is_empty());
}

#[test]
fn nodes_lists_every_node_once() {
    let tree = SasaTree::new(&sample_raw(), &NodeType::Atom).unwrap();
    let nodes = tree.nodes();
    // 1 structure + 2 chains + 3 residues + 4 atoms
    assert_eq!(nodes.len(), 10);
    assert_eq!(nodes[0].nodetype, NodeType::Structure);
}

#[test]
fn node_area_arithmetic() {
    let a = NodeArea::new(10, 1, 2, 3, 4, 5);
    let b = NodeArea::new(7, 1, 1, 1, 1, 1);
    let sum = a.add(&b);
    assert_eq!(sum.total(), 17);
    assert_eq!(sum.main_chain(), 2);
    assert_eq!(sum.side_chain(), 3);
    assert_eq!(sum.polar(), 4);
    assert_eq!(sum.apolar(), 5);
    assert_eq!(sum.unknown(), 6);
    let d = b.sub(&a);
    assert_eq!(d.total(), -3);
    assert_eq!(d.total_abs(), 3);
    assert_eq!(NodeArea::default().total(), 0);
    assert!(a.in_bounds());
}

#[test]
fn subtree_difference_reports_changed_residues() {
    let full = FSResultTree::new(Some(sample_raw())).unwrap();
    let mut changed_raw = sample_raw();
    // change residue 2 of chain A and everything above it
    changed_raw.children[0].children[0].children[1].area = Some(area(100));
    changed_raw.children[0].children[0].area = Some(area(350));
    changed_raw.children[0].area = Some(area(550));
    let changed = FSResultTree::new(Some(changed_raw)).unwrap();
    let diffs = full.get_subtree_difference(&changed);
    assert_eq!(diffs, vec!["A:GLY".to_string()]);
}

#[test]
fn subtree_difference_of_identical_trees_is_empty() {
    let a = FSResultTree::new(Some(sample_raw())).unwrap();
    let b = FSResultTree::new(Some(sample_raw())).unwrap();
    assert!(a.get_subtree_difference(&b).is_empty());
}

#[test]
fn result_tree_requires_a_root() {
    let e = FSResultTree::new(None).unwrap_err();
    assert_eq!(e.kind(), Some(FreesasaErrorKind::NativeTreeConstructionFailed));
}

#[test]
fn join_codes() {
    assert_eq!(interpret_join_code(0).unwrap(), false);
    assert_eq!(interpret_join_code(-2).unwrap(), true);
    let e = interpret_join_code(-1).unwrap_err();
    assert_eq!(e.kind(), Some(FreesasaErrorKind::JoinFailed));
    assert_eq!(e.code(), Some(-1));
}

#[test]
fn node_mutators() {
    let tree = SasaTree::new(&sample_raw(), &NodeType::Residue).unwrap();
    let mut node = tree.node().duplicate();
    assert!(node.area.is_some());
    let taken = node.take_area();
    assert_eq!(taken.unwrap().total(), 600);
    assert!(node.area.is_none());
    node.set_area(Some(area(42)));
    assert_eq!(node.area.unwrap().total(), 42);
    assert_eq!(node.nodetype, NodeType::Structure);
    assert!(node.properties().is_some());
    assert!(node.uid().is_none());
}
