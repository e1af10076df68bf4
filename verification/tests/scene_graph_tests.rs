use ray_tracer::scene_graph::SceneNode;

fn chain_of(node: &SceneNode) -> &Vec<u64> {
    match node {
        SceneNode::Primitive { chain } => chain,
        SceneNode::Group { chain, .. } => chain,
        SceneNode::Csg { chain, .. } => chain,
    }
}

fn children_of(node: &SceneNode) -> &Vec<SceneNode> {
    match node {
        SceneNode::Group { children, .. } => children,
        _ => panic!("not a group"),
    }
}

fn leaf() -> SceneNode {
    SceneNode::Primitive { chain: vec![] }
}

fn group(inverse: u64) -> SceneNode {
    SceneNode::Group {
        inverse,
        chain: vec![],
        children: vec![],
    }
}

#[test]
fn attaching_extends_the_leaf_chain() {
    let g = SceneNode::add_to_group(group(2), leaf());
    assert_eq!(chain_of(&g), &Vec::<u64>::new());
    assert_eq!(children_of(&g).len(), 1);
    assert_eq!(chain_of(&children_of(&g)[0]), &vec![2]);
}

// A sphere two levels deep: attaching the populated inner group to the
// outer one reaches through it, so the leaf's chain lists the inner
// inverse first and the outer one second.
#[test]
fn nested_groups_propagate_transitively() {
    let inner = SceneNode::add_to_group(group(2), leaf());
    let outer = SceneNode::add_to_group(group(1), inner);
    let inner_attached = &children_of(&outer)[0];
    assert_eq!(chain_of(inner_attached), &vec![1]);
    assert_eq!(chain_of(&children_of(inner_attached)[0]), &vec![2, 1]);
}

#[test]
fn three_levels_deep() {
    let g3 = SceneNode::add_to_group(group(3), leaf());
    let g2 = SceneNode::add_to_group(group(2), g3);
    let g1 = SceneNode::add_to_group(group(1), g2);
    let l2 = &children_of(&g1)[0];
    let l3 = &children_of(l2)[0];
    let deep_leaf = &children_of(l3)[0];
    assert_eq!(chain_of(deep_leaf), &vec![3, 2, 1]);
}

#[test]
fn siblings_each_get_the_group_inverse() {
    let g = SceneNode::add_to_group(SceneNode::add_to_group(group(9), leaf()), leaf());
    assert_eq!(children_of(&g).len(), 2);
    assert_eq!(chain_of(&children_of(&g)[0]), &vec![9]);
    assert_eq!(chain_of(&children_of(&g)[1]), &vec![9]);
}

#[test]
fn csg_extends_both_operands() {
    let csg = SceneNode::new_csg(5, leaf(), SceneNode::add_to_group(group(2), leaf()));
    match &csg {
        SceneNode::Csg { inverse, chain, left, right } => {
            assert_eq!(*inverse, 5);
            assert_eq!(chain, &Vec::<u64>::new());
            assert_eq!(chain_of(left), &vec![5]);
            assert_eq!(chain_of(right), &vec![5]);
            assert_eq!(chain_of(&children_of(right)[0]), &vec![2, 5]);
        }
        _ => panic!("not a csg"),
    }
}
