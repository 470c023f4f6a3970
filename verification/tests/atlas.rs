use console::atlas::{count_expanded_branches, OrgNode, OrgNodeType};
use console::services::department::DepartmentTreeNode;

fn sample() -> OrgNode {
    let mut root = OrgNode::root(1, "Xilulu Inc");
    let mut tech = OrgNode::leaf(2, "技术中心", OrgNodeType::Department, Some(1), 0, vec![]);
    tech.expanded = true;
    tech.add_child(OrgNode::leaf(5, "AI实验室", OrgNodeType::Group, Some(2), 12, vec![9, 10, 12]));
    tech.add_child(OrgNode::leaf(6, "前端组", OrgNodeType::Group, Some(2), 18, vec![14, 18]));
    let mut product = OrgNode::leaf(3, "产品部", OrgNodeType::Department, Some(1), 0, vec![]);
    product.expanded = true;
    product.add_child(OrgNode::leaf(8, "产品组", OrgNodeType::Group, Some(3), 10, vec![]));
    root.add_child(tech);
    root.add_child(product);
    root.add_child(OrgNode::leaf(12, "财务部", OrgNodeType::Department, Some(1), 8, vec![7, 8]));
    root
}

fn ids(n: &OrgNode, out: &mut Vec<u64>) {
    out.push(n.id);
    for c in &n.children {
        ids(c, out);
    }
}

#[test]
fn find_is_pre_order() {
    let t = sample();
    assert_eq!(t.find(6).map(|n| n.name.as_str()), Some("前端组"));
    assert_eq!(t.find(1).map(|n| n.id), Some(1));
    assert!(t.find(99).is_none());
}

#[test]
fn rollup_adds_up_children() {
    let mut t = sample();
    assert!(t.rollup_fits());
    t.refresh_rollup_metrics();
    assert_eq!(t.member_count, 12 + 18 + 10 + 8);
    let tech = t.find(2).unwrap();
    assert_eq!(tech.member_count, 30);
    // AI lab: 9,10,12; front end: 14,18 (then 18 again)
    assert_eq!(tech.history, vec![23, 28, 30]);
    let product = t.find(3).unwrap();
    assert_eq!(product.history, vec![10]);
    assert_eq!(t.find(8).unwrap().history, vec![10]);
    // root: tech 23,28,30 / product 10,10,10 / finance 7,8,8
    assert_eq!(t.history, vec![40, 46, 48]);
    assert_eq!(t.timeline_len(), 3);
    assert_eq!(t.headcount_at(1), 46);
    assert_eq!(t.headcount_at(9), 48);
}

#[test]
fn headcount_falls_back() {
    let leaf = OrgNode::leaf(1, "x", OrgNodeType::Group, None, 5, vec![]);
    assert_eq!(leaf.headcount_at(0), 5);
    assert_eq!(leaf.timeline_len(), 1);
    let leaf = OrgNode::leaf(1, "x", OrgNodeType::Group, None, 5, vec![1, 2]);
    assert_eq!(leaf.headcount_at(7), 2);
    assert_eq!(leaf.timeline_len(), 2);
}

#[test]
fn rollup_overflow_is_detected() {
    let mut root = OrgNode::root(1, "big");
    root.add_child(OrgNode::leaf(2, "a", OrgNodeType::Group, Some(1), u32::MAX, vec![]));
    root.add_child(OrgNode::leaf(3, "b", OrgNodeType::Group, Some(1), 1, vec![]));
    assert!(!root.rollup_fits());
}

#[test]
fn toggle_twice_gives_the_tree_back() {
    let t0 = sample();
    let mut t = t0.duplicate();
    assert!(t.toggle_expanded(2));
    assert!(!t.find(2).unwrap().expanded);
    assert!(t.toggle_expanded(2));
    assert_eq!(format!("{t:?}"), format!("{t0:?}"));
    // a node without children stays as it is
    assert!(t.toggle_expanded(5));
    assert!(!t.find(5).unwrap().expanded);
    assert!(!t.toggle_expanded(99));
    assert_eq!(format!("{t:?}"), format!("{t0:?}"));
}

#[test]
fn visible_nodes_and_branches() {
    let mut t = sample();
    assert_eq!(t.visible_node_count(), 7);
    assert_eq!(count_expanded_branches(&t), 3);
    t.toggle_expanded(2);
    assert_eq!(t.visible_node_count(), 5);
    assert_eq!(count_expanded_branches(&t), 2);
    t.toggle_expanded(1);
    assert_eq!(t.visible_node_count(), 1);
}

#[test]
fn move_keeps_every_node() {
    let mut t = sample();
    t.refresh_rollup_metrics();
    let mut before = vec![];
    ids(&t, &mut before);
    before.sort();
    assert!(t.move_fits(8, 2));
    assert!(t.move_to_parent(8, 2));
    let mut after = vec![];
    ids(&t, &mut after);
    after.sort();
    assert_eq!(before, after);
    let tech = t.find(2).unwrap();
    assert_eq!(tech.children.len(), 3);
    assert_eq!(tech.children[2].id, 8);
    assert_eq!(tech.children[2].parent_id, Some(2));
    assert_eq!(tech.member_count, 40);
    // the product department lost its only child: it keeps its own count
    assert_eq!(t.find(3).unwrap().children.len(), 0);
}

#[test]
fn refused_moves_change_nothing() {
    let t0 = sample();
    let mut t = t0.duplicate();
    assert!(!t.move_to_parent(2, 2));
    assert!(!t.move_to_parent(2, 5));
    assert!(!t.move_to_parent(1, 3));
    assert!(!t.move_to_parent(99, 3));
    assert_eq!(format!("{t:?}"), format!("{t0:?}"));
}

#[test]
fn move_under_missing_parent_changes_nothing() {
    let mut t = sample();
    let t0 = sample();
    assert!(!t.move_to_parent(12, 77));
    assert!(t.find(12).is_some());
    assert_eq!(format!("{t:?}"), format!("{t0:?}"));
    let mut u = OrgNode::root(1, "Xilulu Inc");
    u.add_child(OrgNode::leaf(2, "技术中心", OrgNodeType::Department, Some(1), 3, vec![]));
    assert!(!u.move_to_parent(2, 99));
    assert_eq!(u.children.len(), 1);
}

#[test]
fn preview_describes_the_move() {
    let t = sample();
    let p = t.preview_move(8, 2).unwrap();
    assert_eq!(p.node_id, 8);
    assert_eq!(p.node_name, "产品组");
    assert_eq!(p.old_parent_id, 3);
    assert_eq!(p.old_parent_name, "产品部");
    assert_eq!(p.new_parent_name, "技术中心");
    assert_eq!(p.member_count, 10);
    assert_eq!(p.old_parent_remaining_children, 0);
    assert_eq!(p.new_parent_existing_children, 2);
    assert!(t.preview_move(2, 5).is_none());
    assert!(t.preview_move(1, 2).is_none());
    assert!(t.preview_move(8, 8).is_none());
    assert!(t.preview_move(8, 77).is_none());
}

fn api(id: i64, name: &str, count: Option<i64>, children: Option<Vec<DepartmentTreeNode>>) -> DepartmentTreeNode {
    DepartmentTreeNode {
        id,
        name: name.to_string(),
        full_name: None,
        employee_count: count,
        leader_name: None,
        children,
    }
}

#[test]
fn tree_from_service() {
    let nodes = vec![api(
        1,
        "总部",
        Some(3),
        Some(vec![api(2, "研发", Some(5), Some(vec![])), api(3, "市场", None, None)]),
    )];
    let trees = OrgNode::from_api_tree(nodes, None);
    assert_eq!(trees.len(), 1);
    let root = &trees[0];
    assert_eq!(root.node_type, OrgNodeType::Company);
    assert!(root.expanded);
    assert_eq!(root.member_count, 5);
    assert_eq!(root.history, vec![5]);
    assert_eq!(root.children[0].node_type, OrgNodeType::Group);
    assert_eq!(root.children[0].parent_id, Some(1));
    assert_eq!(root.children[1].member_count, 0);
    assert!(!root.children[1].expanded);
    let nested = vec![api(4, "子公司", Some(1), Some(vec![api(5, "组", Some(2), None)]))];
    let trees = OrgNode::from_api_tree(nested, Some(1));
    assert_eq!(trees[0].node_type, OrgNodeType::Department);
}

#[test]
fn timeline_point_of_history() {
    assert_eq!(console::atlas::headcount_point(&[3, 5, 8], 9, 1), 5);
    assert_eq!(console::atlas::headcount_point(&[3, 5, 8], 9, 7), 8);
    assert_eq!(console::atlas::headcount_point(&[], 9, 0), 9);
}

#[test]
fn drawn_nodes_and_links() {
    let mut root = OrgNode::root(1, "Xilulu Inc");
    let mut tech = OrgNode::leaf(2, "技术中心", OrgNodeType::Department, Some(1), 0, vec![]);
    tech.expanded = true;
    tech.add_child(OrgNode::leaf(5, "AI实验室", OrgNodeType::Group, Some(2), 12, vec![]));
    let mut product = OrgNode::leaf(3, "产品部", OrgNodeType::Department, Some(1), 0, vec![]);
    product.expanded = false;
    product.add_child(OrgNode::leaf(8, "产品组", OrgNodeType::Group, Some(3), 10, vec![]));
    root.add_child(tech);
    root.add_child(product);
    let (nodes, links) = console::atlas::layout_plan(&root);
    let shown: Vec<(u64, usize)> = nodes.iter().map(|(n, d)| (n.id, *d)).collect();
    assert_eq!(shown, vec![(1, 0), (2, 1), (5, 2), (3, 1)]);
    let drawn: Vec<(u64, u64, usize, usize)> = links.iter().map(|l| (l.source, l.target, l.depth, l.fanout)).collect();
    assert_eq!(drawn, vec![(1, 2, 0, 1), (2, 5, 1, 0), (1, 3, 0, 1)]);
}

#[test]
fn counts_fit_and_plan_matches_shown_nodes() {
    let t = sample();
    assert!(t.visible_fits());
    assert!(console::atlas::branches_fit(&t));
    let (nodes, links) = console::atlas::layout_plan(&t);
    assert_eq!(nodes.len(), t.visible_node_count());
    assert_eq!(links.len() + 1, nodes.len());
    assert_eq!(nodes[0].0.id, t.id);
}
