//! The organisation tree shown on the atlas view.
//!
//! A node holds its children, its head count and its head count over the
//! last months. The tree can be searched, folded and unfolded, regrouped
//! by moving a node under another parent, and rolled up so that each inner
//! node counts the people of its subtree. The drawing metrics that are
//! computed in floating point (growth rate, collaboration heat, radius)
//! are kept by the view layer.
use vstd::prelude::*;
use vstd::multiset::Multiset;
use crate::services::department::DepartmentTreeNode;
use crate::text::owned;

verus! {

broadcast use vstd::string::group_string_axioms;

/// The kind of a node.
#[derive(Clone, Copy, Debug, PartialEq, Eq, Structural)]
pub enum OrgNodeType {
    /// A company or group.
    Company,
    /// A department.
    Department,
    /// A team.
    Group,
}

/// A node of the organisation tree.
#[derive(Debug)]
pub struct OrgNode {
    pub id: u64,
    pub name: String,
    pub node_type: OrgNodeType,
    /// The parent's identifier (`None` for the root).
    pub parent_id: Option<u64>,
    pub children: Vec<OrgNode>,
    pub member_count: u32,
    pub expanded: bool,
    /// Head count over the last months, oldest first.
    pub history: Vec<u32>,
}

/// What moving a node under another parent would change, shown before
/// the move is confirmed.
#[derive(Clone, Debug, PartialEq)]
pub struct DragChangePreview {
    /// The node moved.
    pub node_id: u64,
    pub node_name: String,
    /// Its present parent.
    pub old_parent_id: u64,
    pub old_parent_name: String,
    /// Its new parent.
    pub new_parent_id: u64,
    pub new_parent_name: String,
    /// The members of the node moved.
    pub member_count: u32,
    /// The children the present parent keeps.
    pub old_parent_remaining_children: usize,
    /// The children the new parent has before the move.
    pub new_parent_existing_children: usize,
}

/// Whether `r` is the preview of moving the node `id` under the node `np`
/// in tree `t`: there is none when the node would go under itself or one
/// of its descendants, or when the node, its recorded parent or the new
/// parent cannot be found.
pub open spec fn previews(t: OrgTree, id: u64, np: u64, r: Option<DragChangePreview>) -> bool {
    if id == np {
        r is None
    } else {
        match find_tree(t, id) {
            None => r is None,
            Some(d) => if has_node(d, np) {
                r is None
            } else {
                match d.parent_id {
                    None => r is None,
                    Some(op) => match (find_tree(t, op), find_tree(t, np)) {
                        (Some(o), Some(p)) => r matches Some(v) && v.node_id == id && v.node_name@ == d.name
                            && v.old_parent_id == op && v.old_parent_name@ == o.name && v.new_parent_id
                            == np && v.new_parent_name@ == p.name && v.member_count == d.member_count
                            && v.old_parent_remaining_children == (if o.children.len() > 0 {
                            o.children.len() - 1
                        } else {
                            0
                        }) && v.new_parent_existing_children == p.children.len(),
                        _ => r is None,
                    },
                }
            },
        }
    }
}

/// The mathematical value of an `OrgNode`.
#[verifier::ext_equal]
pub struct OrgTree {
    pub id: u64,
    pub name: Seq<char>,
    pub node_type: OrgNodeType,
    pub parent_id: Option<u64>,
    pub children: Seq<OrgTree>,
    pub member_count: u32,
    pub expanded: bool,
    pub history: Seq<u32>,
}

/// The tree that node `n` stands for.
pub open spec fn tree_of(n: OrgNode) -> OrgTree
    decreases n,
{
    OrgTree {
        id: n.id,
        name: n.name@,
        node_type: n.node_type,
        parent_id: n.parent_id,
        children: trees_of(n.children@),
        member_count: n.member_count,
        expanded: n.expanded,
        history: n.history@,
    }
}

/// The trees that the nodes `ns` stand for.
pub open spec fn trees_of(ns: Seq<OrgNode>) -> Seq<OrgTree>
    decreases ns,
{
    if ns.len() == 0 {
        Seq::empty()
    } else {
        seq![tree_of(ns[0])] + trees_of(ns.drop_first())
    }
}

impl View for OrgNode {
    type V = OrgTree;

    open spec fn view(&self) -> OrgTree {
        tree_of(*self)
    }
}

/// The first node, in pre-order, with identifier `id`.
pub open spec fn find_tree(t: OrgTree, id: u64) -> Option<OrgTree>
    decreases t, 0int,
{
    if t.id == id {
        Some(t)
    } else {
        find_from(t.children, id, 0)
    }
}

/// The first node, in pre-order over the trees `cs` from the `i`-th on,
/// with identifier `id`.
pub open spec fn find_from(cs: Seq<OrgTree>, id: u64, i: int) -> Option<OrgTree>
    decreases cs, cs.len() - i,
{
    if i < 0 || i >= cs.len() {
        None
    } else {
        match find_tree(cs[i], id) {
            Some(x) => Some(x),
            None => find_from(cs, id, i + 1),
        }
    }
}

/// Whether some node of `t` has identifier `id`.
pub open spec fn has_node(t: OrgTree, id: u64) -> bool {
    find_tree(t, id) is Some
}

/// The tree after folding or unfolding the first node with identifier
/// `id`; a node without children is left as it is.
pub open spec fn toggled(t: OrgTree, id: u64) -> OrgTree
    decreases t, 0int,
{
    if t.id == id {
        if t.children.len() > 0 {
            OrgTree { expanded: !t.expanded, ..t }
        } else {
            t
        }
    } else {
        OrgTree { children: toggled_from(t.children, id, 0), ..t }
    }
}

/// The trees `cs` after toggling, in the first of them from the `i`-th
/// on that holds `id`, the first node with identifier `id`.
pub open spec fn toggled_from(cs: Seq<OrgTree>, id: u64, i: int) -> Seq<OrgTree>
    decreases cs, cs.len() - i,
{
    if i < 0 || i >= cs.len() {
        cs
    } else if has_node(cs[i], id) {
        cs.update(i, toggled(cs[i], id))
    } else {
        toggled_from(cs, id, i + 1)
    }
}

/// The number of nodes shown: a folded node hides its subtree.
pub open spec fn visible(t: OrgTree) -> nat
    decreases t, 0int,
{
    if !t.expanded {
        1
    } else {
        1 + visible_from(t.children, 0)
    }
}

/// The nodes shown of the trees `cs` from the `i`-th on.
pub open spec fn visible_from(cs: Seq<OrgTree>, i: int) -> nat
    decreases cs, cs.len() - i,
{
    if i < 0 || i >= cs.len() {
        0
    } else {
        visible(cs[i]) + visible_from(cs, i + 1)
    }
}

/// The number of points in a node's timeline (at least one).
pub open spec fn timeline_of(t: OrgTree) -> nat {
    if t.history.len() > 1 {
        t.history.len()
    } else {
        1
    }
}

/// The head count at point `i` of the timeline: the recorded one, else the
/// last one recorded, else the current head count.
pub open spec fn headcount_of(t: OrgTree, i: int) -> u32 {
    headcount_in(t.history, t.member_count, i)
}

/// Point `i` of the timeline `history`: the recorded head count, else the
/// last one recorded, else `member_count`.
pub open spec fn headcount_in(history: Seq<u32>, member_count: u32, i: int) -> u32 {
    if 0 <= i < history.len() {
        history[i]
    } else if history.len() > 0 {
        history.last()
    } else {
        member_count
    }
}

/// The position, from the `i`-th on, of the first of the trees `cs` whose
/// root has identifier `id`.
pub open spec fn position_from(cs: Seq<OrgTree>, id: u64, i: int) -> Option<int>
    decreases cs.len() - i,
{
    if i < 0 || i >= cs.len() {
        None
    } else if cs[i].id == id {
        Some(i)
    } else {
        position_from(cs, id, i + 1)
    }
}

/// The tree without the node with identifier `id`, and that node: a child
/// of the root is looked for first, then each child's subtree in turn.
pub open spec fn removed(t: OrgTree, id: u64) -> (OrgTree, Option<OrgTree>)
    decreases t, 0int,
{
    match position_from(t.children, id, 0) {
        Some(k) => (OrgTree { children: t.children.remove(k), ..t }, Some(t.children[k])),
        None => {
            let p = removed_from(t.children, id, 0);
            (OrgTree { children: p.0, ..t }, p.1)
        },
    }
}

/// The trees `cs` after removing the node with identifier `id` from the
/// first of them, from the `i`-th on, that gives one up; and that node.
pub open spec fn removed_from(cs: Seq<OrgTree>, id: u64, i: int) -> (Seq<OrgTree>, Option<OrgTree>)
    decreases cs, cs.len() - i,
{
    if i < 0 || i >= cs.len() {
        (cs, None)
    } else {
        let p = removed(cs[i], id);
        if p.1 is Some {
            (cs.update(i, p.0), p.1)
        } else {
            removed_from(cs, id, i + 1)
        }
    }
}

/// The tree with `c` appended to the children of the first node, in
/// pre-order, with identifier `pid`; and whether there was one.
pub open spec fn added(t: OrgTree, pid: u64, c: OrgTree) -> (OrgTree, bool)
    decreases t, 0int,
{
    if t.id == pid {
        (OrgTree { children: t.children.push(c), ..t }, true)
    } else {
        let p = added_from(t.children, pid, c, 0);
        (OrgTree { children: p.0, ..t }, p.1)
    }
}

/// The trees `cs` after adding `c` under `pid` in the first of them, from
/// the `i`-th on, that holds `pid`.
pub open spec fn added_from(cs: Seq<OrgTree>, pid: u64, c: OrgTree, i: int) -> (Seq<OrgTree>, bool)
    decreases cs, cs.len() - i,
{
    if i < 0 || i >= cs.len() {
        (cs, false)
    } else if has_node(cs[i], pid) {
        let p = added(cs[i], pid, c);
        (cs.update(i, p.0), p.1)
    } else {
        added_from(cs, pid, c, i + 1)
    }
}

/// Whether the node `id` would be put under one of its own descendants
/// (or under itself).
pub open spec fn under_itself(t: OrgTree, id: u64, np: u64) -> bool {
    id == np || match find_tree(t, id) {
        Some(d) => has_node(d, np),
        None => false,
    }
}

/// The tree after taking the node `id` out and putting it, with its new
/// parent recorded, under the node `np`; and whether that was done. The
/// move is refused, and the tree left as it is, when the node is not
/// found below the root, when the new parent is not found, or when the new
/// parent is the node itself or lies in its subtree. Head counts are not
/// rolled up again.
pub open spec fn relocated(t: OrgTree, id: u64, np: u64) -> (OrgTree, bool) {
    if under_itself(t, id, np) || !has_node(t, np) {
        (t, false)
    } else {
        let p = removed(t, id);
        match p.1 {
            None => (t, false),
            Some(n) => if has_node(n, np) {
                (t, false)
            } else {
                added(p.0, np, OrgTree { parent_id: Some(np), ..n })
            },
        }
    }
}

/// The tree after rolling head counts up: a leaf without a recorded
/// timeline gets one point, its head count; an inner node counts the
/// members of its rolled-up children, and its timeline, as long as the
/// longest of theirs, adds up their head counts point by point.
pub open spec fn rollup(t: OrgTree) -> OrgTree
    decreases t, 0int,
{
    if t.children.len() == 0 {
        OrgTree {
            history: if t.history.len() == 0 {
                seq![t.member_count]
            } else {
                t.history
            },
            ..t
        }
    } else {
        let cs = rollup_from(t.children, 0);
        OrgTree {
            children: cs,
            member_count: members_of(cs, 0) as u32,
            history: Seq::new(timeline_max(cs, 0), |k: int| heads_at(cs, k, 0) as u32),
            ..t
        }
    }
}

/// The trees `cs`, from the `i`-th on, rolled up.
pub open spec fn rollup_from(cs: Seq<OrgTree>, i: int) -> Seq<OrgTree>
    decreases cs, cs.len() - i,
{
    if i < 0 || i >= cs.len() {
        Seq::empty()
    } else {
        seq![rollup(cs[i])] + rollup_from(cs, i + 1)
    }
}

/// The members of the trees `cs` from the `i`-th on.
pub open spec fn members_of(cs: Seq<OrgTree>, i: int) -> nat
    decreases cs.len() - i,
{
    if i < 0 || i >= cs.len() {
        0
    } else {
        cs[i].member_count as nat + members_of(cs, i + 1)
    }
}

/// The longest timeline of the trees `cs` from the `i`-th on (0 when
/// there are none).
pub open spec fn timeline_max(cs: Seq<OrgTree>, i: int) -> nat
    decreases cs.len() - i,
{
    if i < 0 || i >= cs.len() {
        0
    } else {
        let rest = timeline_max(cs, i + 1);
        if timeline_of(cs[i]) >= rest {
            timeline_of(cs[i])
        } else {
            rest
        }
    }
}

/// The head counts at point `k` of the trees `cs` from the `i`-th on.
pub open spec fn heads_at(cs: Seq<OrgTree>, k: int, i: int) -> nat
    decreases cs.len() - i,
{
    if i < 0 || i >= cs.len() {
        0
    } else {
        headcount_of(cs[i], k) as nat + heads_at(cs, k, i + 1)
    }
}

/// Whether rolling `t` up keeps every count within `u32`.
pub open spec fn rollup_fits(t: OrgTree) -> bool
    decreases t, 0int,
{
    &&& fits_from(t.children, 0)
    &&& t.children.len() > 0 ==> {
        let cs = rollup_from(t.children, 0);
        &&& members_of(cs, 0) <= u32::MAX
        &&& forall|k: int| 0 <= k < timeline_max(cs, 0) ==> #[trigger] heads_at(cs, k, 0) <= u32::MAX
    }
}

/// Whether rolling up each of the trees `cs`, from the `i`-th on, keeps
/// every count within `u32`.
pub open spec fn fits_from(cs: Seq<OrgTree>, i: int) -> bool
    decreases cs, cs.len() - i,
{
    if i < 0 || i >= cs.len() {
        true
    } else {
        rollup_fits(cs[i]) && fits_from(cs, i + 1)
    }
}

/// The tree after moving the node `id` under the node `np` and, when the
/// move was made, rolling head counts up; and whether the move was made.
pub open spec fn moved(t: OrgTree, id: u64, np: u64) -> (OrgTree, bool) {
    let p = relocated(t, id, np);
    if p.1 {
        (rollup(p.0), true)
    } else {
        p
    }
}

/// Whether the move of `id` under `np` keeps every rolled-up count within
/// `u32`.
pub open spec fn move_fits(t: OrgTree, id: u64, np: u64) -> bool {
    let p = relocated(t, id, np);
    p.1 ==> rollup_fits(p.0)
}

/// The tree built from the department node `n` under parent `parent`,
/// before head counts are rolled up: a node with children is unfolded and
/// is a company at the top, a department below; one without is a team.
pub open spec fn api_unrolled(n: DepartmentTreeNode, parent: Option<u64>) -> OrgTree
    decreases n, 0int,
{
    let has = match n.children {
        Some(v) => v@.len() > 0,
        None => false,
    };
    let members = match n.employee_count {
        Some(c) => c as u32,
        None => 0u32,
    };
    OrgTree {
        id: n.id as u64,
        name: n.name@,
        node_type: if parent is None && has {
            OrgNodeType::Company
        } else if has {
            OrgNodeType::Department
        } else {
            OrgNodeType::Group
        },
        parent_id: parent,
        children: match n.children {
            Some(v) => api_trees(v@, Some(n.id as u64), 0),
            None => Seq::empty(),
        },
        member_count: members,
        expanded: has,
        history: seq![members],
    }
}

/// The tree built from the department node `n` under parent `parent`.
pub open spec fn api_tree(n: DepartmentTreeNode, parent: Option<u64>) -> OrgTree
    decreases n, 1int,
{
    rollup(api_unrolled(n, parent))
}

/// The trees built from the department nodes `ns`, from the `i`-th on,
/// under parent `parent`.
pub open spec fn api_trees(ns: Seq<DepartmentTreeNode>, parent: Option<u64>, i: int) -> Seq<OrgTree>
    decreases ns, ns.len() - i,
{
    if i < 0 || i >= ns.len() {
        Seq::empty()
    } else {
        seq![api_tree(ns[i], parent)] + api_trees(ns, parent, i + 1)
    }
}

/// Whether building the tree of `n` keeps every rolled-up count within
/// `u32`.
pub open spec fn api_fits(n: DepartmentTreeNode, parent: Option<u64>) -> bool
    decreases n, 0int,
{
    &&& match n.children {
        Some(v) => api_fits_from(v@, Some(n.id as u64), 0),
        None => true,
    }
    &&& rollup_fits(api_unrolled(n, parent))
}

/// Whether building the trees of `ns`, from the `i`-th on, keeps every
/// rolled-up count within `u32`.
pub open spec fn api_fits_from(ns: Seq<DepartmentTreeNode>, parent: Option<u64>, i: int) -> bool
    decreases ns, ns.len() - i,
{
    if i < 0 || i >= ns.len() {
        true
    } else {
        api_fits(ns[i], parent) && api_fits_from(ns, parent, i + 1)
    }
}

/// The number of unfolded nodes that have children.
pub open spec fn expanded_branches(t: OrgTree) -> nat
    decreases t, 0int,
{
    (if t.children.len() > 0 && t.expanded {
        1nat
    } else {
        0nat
    }) + branches_from(t.children, 0)
}

/// The unfolded nodes with children in the trees `cs` from the `i`-th on.
pub open spec fn branches_from(cs: Seq<OrgTree>, i: int) -> nat
    decreases cs, cs.len() - i,
{
    if i < 0 || i >= cs.len() {
        0
    } else {
        expanded_branches(cs[i]) + branches_from(cs, i + 1)
    }
}

/// The identifiers of the nodes of `t`, each as often as it occurs.
pub open spec fn ids(t: OrgTree) -> Multiset<u64>
    decreases t, 0int,
{
    Multiset::singleton(t.id).add(ids_from(t.children, 0))
}

/// The identifiers of the nodes of the trees `cs` from the `i`-th on.
pub open spec fn ids_from(cs: Seq<OrgTree>, i: int) -> Multiset<u64>
    decreases cs, cs.len() - i,
{
    if i < 0 || i >= cs.len() {
        Multiset::empty()
    } else {
        ids(cs[i]).add(ids_from(cs, i + 1))
    }
}

// ------------------------------------------------------------------
// Lemmas on the model
// ------------------------------------------------------------------

/// The trees of a sequence of nodes, one by one.
pub proof fn lemma_trees_of(ns: Seq<OrgNode>)
    ensures
        trees_of(ns).len() == ns.len(),
        forall|i: int| 0 <= i < ns.len() ==> #[trigger] trees_of(ns)[i] == tree_of(ns[i]),
    decreases ns.len(),
{
    if ns.len() > 0 {
        lemma_trees_of(ns.drop_first());
        assert forall|i: int| 0 <= i < ns.len() implies #[trigger] trees_of(ns)[i] == tree_of(ns[i]) by {
            if i > 0 {
                assert(ns.drop_first()[i - 1] == ns[i]);
            }
        }
    }
}

/// Replacing one node replaces its tree.
pub proof fn lemma_trees_of_update(ns: Seq<OrgNode>, i: int, n: OrgNode)
    requires
        0 <= i < ns.len(),
    ensures
        trees_of(ns.update(i, n)) == trees_of(ns).update(i, tree_of(n)),
{
    lemma_trees_of(ns);
    lemma_trees_of(ns.update(i, n));
    assert(trees_of(ns.update(i, n)) =~= trees_of(ns).update(i, tree_of(n)));
}

/// Appending a node appends its tree.
pub proof fn lemma_trees_of_push(ns: Seq<OrgNode>, n: OrgNode)
    ensures
        trees_of(ns.push(n)) == trees_of(ns).push(tree_of(n)),
{
    lemma_trees_of(ns);
    lemma_trees_of(ns.push(n));
    assert(trees_of(ns.push(n)) =~= trees_of(ns).push(tree_of(n)));
}

/// Removing a node removes its tree.
pub proof fn lemma_trees_of_remove(ns: Seq<OrgNode>, i: int)
    requires
        0 <= i < ns.len(),
    ensures
        trees_of(ns.remove(i)) == trees_of(ns).remove(i),
{
    lemma_trees_of(ns);
    lemma_trees_of(ns.remove(i));
    assert(trees_of(ns.remove(i)) =~= trees_of(ns).remove(i));
}

/// A search from `i` skips trees that do not hold `id`.
pub proof fn lemma_find_from_skip(cs: Seq<OrgTree>, id: u64, i: int)
    requires
        0 <= i <= cs.len(),
        forall|j: int| 0 <= j < i ==> !has_node(#[trigger] cs[j], id),
    ensures
        find_from(cs, id, 0) == find_from(cs, id, i),
    decreases i,
{
    if i > 0 {
        lemma_find_from_skip(cs, id, i - 1);
        assert(!has_node(cs[i - 1], id));
    }
}

/// Toggling from `i` skips trees that do not hold `id`.
pub proof fn lemma_toggled_from_skip(cs: Seq<OrgTree>, id: u64, i: int)
    requires
        0 <= i <= cs.len(),
        forall|j: int| 0 <= j < i ==> !has_node(#[trigger] cs[j], id),
    ensures
        toggled_from(cs, id, 0) == toggled_from(cs, id, i),
    decreases i,
{
    if i > 0 {
        lemma_toggled_from_skip(cs, id, i - 1);
        assert(!has_node(cs[i - 1], id));
    }
}

/// Toggling a node that is not there changes nothing.
pub proof fn lemma_toggle_absent(t: OrgTree, id: u64)
    requires
        !has_node(t, id),
    ensures
        toggled(t, id) == t,
    decreases t, 0int,
{
    lemma_toggle_absent_from(t.children, id, 0);
    assert(toggled(t, id) =~= t);
}

/// Toggling in trees that do not hold `id` changes nothing.
pub proof fn lemma_toggle_absent_from(cs: Seq<OrgTree>, id: u64, i: int)
    requires
        find_from(cs, id, i) is None,
    ensures
        toggled_from(cs, id, i) == cs,
    decreases cs, cs.len() - i,
{
    if 0 <= i < cs.len() {
        lemma_toggle_absent_from(cs, id, i + 1);
    }
}

/// A search for a child from `i` skips children with other identifiers.
pub proof fn lemma_position_skip(cs: Seq<OrgTree>, id: u64, i: int)
    requires
        0 <= i <= cs.len(),
        forall|j: int| 0 <= j < i ==> (#[trigger] cs[j]).id != id,
    ensures
        position_from(cs, id, 0) == position_from(cs, id, i),
    decreases i,
{
    if i > 0 {
        lemma_position_skip(cs, id, i - 1);
    }
}

/// Removal from `i` skips trees that give nothing up.
pub proof fn lemma_removed_from_skip(cs: Seq<OrgTree>, id: u64, i: int)
    requires
        0 <= i <= cs.len(),
        forall|j: int| 0 <= j < i ==> (#[trigger] removed(cs[j], id)).1 is None,
    ensures
        removed_from(cs, id, 0) == removed_from(cs, id, i),
    decreases i,
{
    if i > 0 {
        lemma_removed_from_skip(cs, id, i - 1);
        assert(removed(cs[i - 1], id).1 is None);
    }
}

/// A removal that finds nothing changes nothing.
pub proof fn lemma_removed_none(t: OrgTree, id: u64)
    requires
        removed(t, id).1 is None,
    ensures
        removed(t, id).0 == t,
    decreases t, 0int,
{
    lemma_removed_from_none(t.children, id, 0);
    assert(removed(t, id).0 =~= t);
}

/// A removal in trees that finds nothing changes nothing.
pub proof fn lemma_removed_from_none(cs: Seq<OrgTree>, id: u64, i: int)
    requires
        removed_from(cs, id, i).1 is None,
    ensures
        removed_from(cs, id, i).0 == cs,
    decreases cs, cs.len() - i,
{
    if 0 <= i < cs.len() {
        lemma_removed_from_none(cs, id, i + 1);
    }
}

/// Adding from `i` skips trees that do not hold the parent.
pub proof fn lemma_added_from_skip(cs: Seq<OrgTree>, pid: u64, c: OrgTree, i: int)
    requires
        0 <= i <= cs.len(),
        forall|j: int| 0 <= j < i ==> !has_node(#[trigger] cs[j], pid),
    ensures
        added_from(cs, pid, c, 0) == added_from(cs, pid, c, i),
    decreases i,
{
    if i > 0 {
        lemma_added_from_skip(cs, pid, c, i - 1);
        assert(!has_node(cs[i - 1], pid));
    }
}

/// The rolled-up trees, one by one.
pub proof fn lemma_rollup_from(cs: Seq<OrgTree>, i: int)
    requires
        0 <= i <= cs.len(),
    ensures
        rollup_from(cs, i).len() == cs.len() - i,
        forall|k: int| 0 <= k < cs.len() - i ==> #[trigger] rollup_from(cs, i)[k] == rollup(cs[i + k]),
    decreases cs.len() - i,
{
    if i < cs.len() {
        lemma_rollup_from(cs, i + 1);
        assert forall|k: int| 0 <= k < cs.len() - i implies #[trigger] rollup_from(cs, i)[k] == rollup(
            cs[i + k],
        ) by {
            if k > 0 {
                assert(rollup_from(cs, i)[k] == rollup_from(cs, i + 1)[k - 1]);
            }
        }
    }
}

/// Every tree fits when all of them do, and a tree that does not fit
/// spoils them all.
pub proof fn lemma_fits_from(cs: Seq<OrgTree>, i: int)
    requires
        0 <= i <= cs.len(),
    ensures
        fits_from(cs, i) <==> forall|j: int| i <= j < cs.len() ==> rollup_fits(#[trigger] cs[j]),
    decreases cs.len() - i,
{
    if i < cs.len() {
        lemma_fits_from(cs, i + 1);
    }
}

/// The trees built from department nodes, one by one.
pub proof fn lemma_api_trees(ns: Seq<DepartmentTreeNode>, parent: Option<u64>, i: int)
    requires
        0 <= i <= ns.len(),
    ensures
        api_trees(ns, parent, i).len() == ns.len() - i,
        forall|k: int| 0 <= k < ns.len() - i ==> #[trigger] api_trees(ns, parent, i)[k] == api_tree(ns[i + k], parent),
        api_fits_from(ns, parent, i) <==> forall|k: int| i <= k < ns.len() ==> api_fits(#[trigger] ns[k], parent),
    decreases ns.len() - i,
{
    if i < ns.len() {
        lemma_api_trees(ns, parent, i + 1);
        assert forall|k: int| 0 <= k < ns.len() - i implies #[trigger] api_trees(ns, parent, i)[k] == api_tree(
            ns[i + k],
            parent,
        ) by {
            if k > 0 {
                assert(api_trees(ns, parent, i)[k] == api_trees(ns, parent, i + 1)[k - 1]);
            }
        }
    }
}

/// A search from `i` looks only at the trees from the `i`-th on.
pub proof fn lemma_find_from_agree(a: Seq<OrgTree>, b: Seq<OrgTree>, x: u64, i: int)
    requires
        a.len() == b.len(),
        0 <= i,
        forall|j: int| i <= j < a.len() ==> a[j] == b[j],
    ensures
        find_from(a, x, i) == find_from(b, x, i),
    decreases a.len() - i,
{
    if i < a.len() {
        lemma_find_from_agree(a, b, x, i + 1);
    }
}

/// Folding or unfolding keeps every node where it was: the same
/// identifiers are found.
pub proof fn law_toggle_keeps_nodes(t: OrgTree, id: u64, x: u64)
    ensures
        has_node(toggled(t, id), x) == has_node(t, x),
    decreases t, 0int,
{
    if t.id != id {
        lemma_toggle_keeps_nodes_from(t.children, id, x, 0);
    }
}

/// Toggling in trees from `i` on keeps their length, the trees before
/// `i`, and the identifiers found from `i` on.
pub proof fn lemma_toggle_keeps_nodes_from(cs: Seq<OrgTree>, id: u64, x: u64, i: int)
    requires
        0 <= i <= cs.len(),
    ensures
        toggled_from(cs, id, i).len() == cs.len(),
        forall|j: int| 0 <= j < i ==> #[trigger] toggled_from(cs, id, i)[j] == cs[j],
        (find_from(toggled_from(cs, id, i), x, i) is Some) == (find_from(cs, x, i) is Some),
    decreases cs, cs.len() - i,
{
    if i < cs.len() {
        if has_node(cs[i], id) {
            let u = cs.update(i, toggled(cs[i], id));
            law_toggle_keeps_nodes(cs[i], id, x);
            lemma_find_from_agree(u, cs, x, i + 1);
        } else {
            lemma_toggle_keeps_nodes_from(cs, id, x, i + 1);
            let u = toggled_from(cs, id, i + 1);
            assert(u[i] == cs[i]);
        }
    }
}

/// Folding or unfolding the same node twice gives the tree back.
pub proof fn law_toggle_twice(t: OrgTree, id: u64)
    ensures
        toggled(toggled(t, id), id) == t,
    decreases t, 0int,
{
    if t.id == id {
        assert(toggled(toggled(t, id), id) =~= t);
    } else {
        lemma_toggle_twice_from(t.children, id, 0);
        assert(toggled(toggled(t, id), id) =~= t);
    }
}

/// Toggling twice in trees from `i` on gives them back.
pub proof fn lemma_toggle_twice_from(cs: Seq<OrgTree>, id: u64, i: int)
    requires
        0 <= i <= cs.len(),
    ensures
        toggled_from(toggled_from(cs, id, i), id, i) == cs,
    decreases cs, cs.len() - i,
{
    if i < cs.len() {
        if has_node(cs[i], id) {
            let u = cs.update(i, toggled(cs[i], id));
            law_toggle_keeps_nodes(cs[i], id, id);
            law_toggle_twice(cs[i], id);
            assert(u.update(i, toggled(u[i], id)) =~= cs);
        } else {
            lemma_toggle_twice_from(cs, id, i + 1);
            lemma_toggle_keeps_nodes_from(cs, id, id, i + 1);
            let u = toggled_from(cs, id, i + 1);
            assert(u[i] == cs[i]);
        }
    }
}

/// Trees with the same identifiers, one by one, have the same identifiers
/// from `i` on.
pub proof fn lemma_ids_agree(a: Seq<OrgTree>, b: Seq<OrgTree>, i: int)
    requires
        a.len() == b.len(),
        0 <= i,
        forall|j: int| i <= j < a.len() ==> ids(#[trigger] a[j]) == ids(b[j]),
    ensures
        ids_from(a, i) == ids_from(b, i),
    decreases a.len() - i,
{
    if i < a.len() {
        lemma_ids_agree(a, b, i + 1);
    }
}

/// Replacing the `k`-th tree trades its identifiers for the new tree's.
pub proof fn lemma_ids_update(cs: Seq<OrgTree>, k: int, x: OrgTree, i: int)
    requires
        0 <= i <= k < cs.len(),
    ensures
        ids_from(cs.update(k, x), i).add(ids(cs[k])) =~= ids_from(cs, i).add(ids(x)),
    decreases k - i,
{
    broadcast use vstd::multiset::group_multiset_axioms;

    let u = cs.update(k, x);
    if i == k {
        lemma_ids_agree(u, cs, k + 1);
        assert(ids_from(u, k) == ids(x).add(ids_from(u, k + 1)));
        assert(ids_from(cs, k) == ids(cs[k]).add(ids_from(cs, k + 1)));
        assert forall|v: u64| #[trigger] ids_from(u, i).add(ids(cs[k])).count(v) == ids_from(cs, i).add(
            ids(x),
        ).count(v) by {}
    } else {
        lemma_ids_update(cs, k, x, i + 1);
        assert(u[i] == cs[i]);
        assert(ids_from(u, i) == ids(cs[i]).add(ids_from(u, i + 1)));
        assert(ids_from(cs, i) == ids(cs[i]).add(ids_from(cs, i + 1)));
        assert forall|v: u64| #[trigger] ids_from(u, i).add(ids(cs[k])).count(v) == ids_from(cs, i).add(
            ids(x),
        ).count(v) by {
            assert(ids_from(u, i + 1).add(ids(cs[k])).count(v) == ids_from(cs, i + 1).add(ids(x)).count(v));
        }
    }
}

/// Appending a tree adds its identifiers.
pub proof fn lemma_ids_push(cs: Seq<OrgTree>, c: OrgTree, i: int)
    requires
        0 <= i <= cs.len(),
    ensures
        ids_from(cs.push(c), i) =~= ids_from(cs, i).add(ids(c)),
    decreases cs.len() - i,
{
    broadcast use vstd::multiset::group_multiset_axioms;

    let u = cs.push(c);
    if i < cs.len() {
        lemma_ids_push(cs, c, i + 1);
        assert(u[i] == cs[i]);
    } else {
        assert(u[i] == c);
        assert(ids_from(u, i + 1) =~= Multiset::empty());
    }
}

/// The trees after position `k` of `cs.remove(k)` are those after `k + 1`
/// of `cs`.
proof fn lemma_ids_shift(cs: Seq<OrgTree>, k: int, i: int)
    requires
        0 <= k < cs.len(),
        k <= i <= cs.len() - 1,
    ensures
        ids_from(cs.remove(k), i) == ids_from(cs, i + 1),
    decreases cs.len() - i,
{
    let u = cs.remove(k);
    if i < u.len() {
        lemma_ids_shift(cs, k, i + 1);
        assert(u[i] == cs[i + 1]);
    }
}

/// Removing the `k`-th tree takes its identifiers away.
pub proof fn lemma_ids_remove(cs: Seq<OrgTree>, k: int, i: int)
    requires
        0 <= i <= k < cs.len(),
    ensures
        ids_from(cs.remove(k), i).add(ids(cs[k])) =~= ids_from(cs, i),
    decreases k - i,
{
    broadcast use vstd::multiset::group_multiset_axioms;

    let u = cs.remove(k);
    if i == k {
        lemma_ids_shift(cs, k, k);
    } else {
        lemma_ids_remove(cs, k, i + 1);
        assert(u[i] == cs[i]);
    }
}

/// A removal that finds the node splits the identifiers between what is
/// left and what was taken out.
pub proof fn lemma_removed_ids(t: OrgTree, id: u64)
    ensures
        match removed(t, id).1 {
            Some(n) => ids(removed(t, id).0).add(ids(n)) =~= ids(t),
            None => removed(t, id).0 == t,
        },
    decreases t, 0int,
{
    broadcast use vstd::multiset::group_multiset_axioms;

    lemma_removed_none_when(t, id);
    match position_from(t.children, id, 0) {
        Some(k) => {
            lemma_position_found(t.children, id, 0);
            lemma_ids_remove(t.children, k, 0);
        },
        None => {
            lemma_removed_from_ids(t.children, id, 0);
        },
    }
}

/// A removal that finds nothing changes nothing.
proof fn lemma_removed_none_when(t: OrgTree, id: u64)
    ensures
        removed(t, id).1 is None ==> removed(t, id).0 == t,
{
    if removed(t, id).1 is None {
        lemma_removed_none(t, id);
    }
}

/// A child found by its identifier is a child with that identifier.
pub proof fn lemma_position_found(cs: Seq<OrgTree>, id: u64, i: int)
    ensures
        position_from(cs, id, i) matches Some(k) ==> i <= k < cs.len() && cs[k].id == id,
    decreases cs.len() - i,
{
    if 0 <= i < cs.len() && cs[i].id != id {
        lemma_position_found(cs, id, i + 1);
    }
}

/// Removal in trees from `i` on splits the identifiers between what is
/// left and what was taken out.
pub proof fn lemma_removed_from_ids(cs: Seq<OrgTree>, id: u64, i: int)
    requires
        0 <= i,
    ensures
        removed_from(cs, id, i).1 matches Some(n) ==> ids_from(removed_from(cs, id, i).0, 0).add(ids(n))
            =~= ids_from(cs, 0),
    decreases cs, cs.len() - i,
{
    broadcast use vstd::multiset::group_multiset_axioms;

    if i < cs.len() {
        let p = removed(cs[i], id);
        lemma_removed_ids(cs[i], id);
        if p.1 is Some {
            let u = cs.update(i, p.0);
            let n = p.1->0;
            lemma_ids_update(cs, i, p.0, 0);
            assert forall|v: u64| #[trigger] ids_from(u, 0).add(ids(n)).count(v) == ids_from(cs, 0).count(v) by {
                assert(ids_from(u, 0).add(ids(cs[i])).count(v) == ids_from(cs, 0).add(ids(p.0)).count(v));
                assert(ids(p.0).add(ids(n)).count(v) == ids(cs[i]).count(v));
            }
            assert(ids_from(u, 0).add(ids(n)) =~= ids_from(cs, 0));
        } else {
            lemma_removed_from_ids(cs, id, i + 1);
        }
    }
}

/// Adding a tree under a node that is found adds its identifiers; when
/// none is found nothing changes.
pub proof fn lemma_added_ids(t: OrgTree, pid: u64, c: OrgTree)
    ensures
        added(t, pid, c).1 ==> ids(added(t, pid, c).0) =~= ids(t).add(ids(c)),
        !added(t, pid, c).1 ==> added(t, pid, c).0 == t,
    decreases t, 0int,
{
    broadcast use vstd::multiset::group_multiset_axioms;

    if t.id == pid {
        lemma_ids_push(t.children, c, 0);
    } else {
        lemma_added_from_ids(t.children, pid, c, 0);
        if !added(t, pid, c).1 {
            assert(added(t, pid, c).0 =~= t);
        }
    }
}

/// Adding in trees from `i` on adds the identifiers of `c` when a parent
/// is found, and changes nothing otherwise.
pub proof fn lemma_added_from_ids(cs: Seq<OrgTree>, pid: u64, c: OrgTree, i: int)
    requires
        0 <= i,
    ensures
        added_from(cs, pid, c, i).1 ==> ids_from(added_from(cs, pid, c, i).0, 0) =~= ids_from(cs, 0).add(
            ids(c),
        ),
        !added_from(cs, pid, c, i).1 ==> added_from(cs, pid, c, i).0 == cs,
    decreases cs, cs.len() - i,
{
    broadcast use vstd::multiset::group_multiset_axioms;

    if i < cs.len() {
        if has_node(cs[i], pid) {
            let p = added(cs[i], pid, c);
            lemma_added_ids(cs[i], pid, c);
            if p.1 {
                let u = cs.update(i, p.0);
                lemma_ids_update(cs, i, p.0, 0);
                assert forall|v: u64| #[trigger] ids_from(u, 0).count(v) == ids_from(cs, 0).add(ids(c)).count(v) by {
                    assert(ids_from(u, 0).add(ids(cs[i])).count(v) == ids_from(cs, 0).add(ids(p.0)).count(v));
                    assert(ids(p.0).count(v) == ids(cs[i]).add(ids(c)).count(v));
                }
                assert(ids_from(u, 0) =~= ids_from(cs, 0).add(ids(c)));
            } else {
                assert(cs.update(i, p.0) =~= cs);
            }
        } else {
            lemma_added_from_ids(cs, pid, c, i + 1);
        }
    }
}

/// Rolling head counts up keeps every node.
pub proof fn law_rollup_keeps_nodes(t: OrgTree)
    ensures
        ids(rollup(t)) == ids(t),
    decreases t, 0int,
{
    if t.children.len() > 0 {
        let cs = rollup_from(t.children, 0);
        lemma_rollup_from(t.children, 0);
        assert forall|j: int| 0 <= j < cs.len() implies ids(#[trigger] cs[j]) == ids(t.children[j]) by {
            assert(cs[j] == rollup(t.children[0 + j]));
            law_rollup_keeps_nodes(t.children[j]);
        }
        lemma_ids_agree(cs, t.children, 0);
    }
}

/// A tree holds a node with identifier `x` exactly when `x` is among its
/// identifiers.
pub proof fn lemma_has_node_ids(t: OrgTree, x: u64)
    ensures
        has_node(t, x) <==> ids(t).count(x) > 0,
    decreases t, 0int,
{
    broadcast use vstd::multiset::group_multiset_axioms;

    lemma_find_from_ids(t.children, x, 0);
}

/// The trees from the `i`-th on hold a node with identifier `x` exactly
/// when `x` is among their identifiers.
pub proof fn lemma_find_from_ids(cs: Seq<OrgTree>, x: u64, i: int)
    requires
        0 <= i,
    ensures
        find_from(cs, x, i) is Some <==> ids_from(cs, i).count(x) > 0,
    decreases cs, cs.len() - i,
{
    broadcast use vstd::multiset::group_multiset_axioms;

    if i < cs.len() {
        lemma_has_node_ids(cs[i], x);
        lemma_find_from_ids(cs, x, i + 1);
    }
}

/// Adding under `pid` succeeds exactly when the tree holds `pid`.
pub proof fn lemma_added_iff_has(t: OrgTree, pid: u64, c: OrgTree)
    ensures
        added(t, pid, c).1 == has_node(t, pid),
    decreases t, 0int,
{
    if t.id != pid {
        lemma_added_from_iff_find(t.children, pid, c, 0);
    }
}

/// Adding under `pid` in the trees from the `i`-th on succeeds exactly
/// when one of them holds `pid`.
pub proof fn lemma_added_from_iff_find(cs: Seq<OrgTree>, pid: u64, c: OrgTree, i: int)
    requires
        0 <= i,
    ensures
        added_from(cs, pid, c, i).1 == find_from(cs, pid, i) is Some,
    decreases cs, cs.len() - i,
{
    if i < cs.len() {
        if has_node(cs[i], pid) {
            lemma_added_iff_has(cs[i], pid, c);
        } else {
            lemma_added_from_iff_find(cs, pid, c, i + 1);
        }
    }
}

/// Once the node `id` is taken out, a node that was in the tree but not
/// in the part taken out is still there.
pub proof fn lemma_removed_keeps_other(t: OrgTree, id: u64, x: u64)
    requires
        has_node(t, x),
        removed(t, id).1 matches Some(n) && !has_node(n, x),
    ensures
        has_node(removed(t, id).0, x),
{
    broadcast use vstd::multiset::group_multiset_axioms;

    lemma_removed_ids(t, id);
    lemma_has_node_ids(t, x);
    lemma_has_node_ids(removed(t, id).1->0, x);
    lemma_has_node_ids(removed(t, id).0, x);
}

/// A move that is made puts the node under its new parent: the node
/// taken out is added back under `np`.
pub proof fn lemma_relocated_adds(t: OrgTree, id: u64, np: u64)
    requires
        !under_itself(t, id, np),
        has_node(t, np),
        removed(t, id).1 matches Some(n) && !has_node(n, np),
    ensures
        relocated(t, id, np).1,
{
    let p = removed(t, id);
    lemma_removed_keeps_other(t, id, np);
    lemma_added_iff_has(p.0, np, OrgTree { parent_id: Some(np), ..p.1->0 });
}

/// A move neither loses nor duplicates a node: the tree holds the same
/// identifiers, each as often, as before, whether the move is made or
/// refused.
pub proof fn law_move_keeps_nodes(t: OrgTree, id: u64, np: u64)
    ensures
        ids(moved(t, id, np).0) =~= ids(t),
{
    broadcast use vstd::multiset::group_multiset_axioms;

    if !moved(t, id, np).1 {
        law_refused_move_changes_nothing(t, id, np);
    } else {
        let p = removed(t, id);
        lemma_removed_ids(t, id);
        let n = p.1->0;
        let n2 = OrgTree { parent_id: Some(np), ..n };
        lemma_added_ids(p.0, np, n2);
        assert(ids(n2) == ids(n));
        law_rollup_keeps_nodes(added(p.0, np, n2).0);
    }
}

/// A refused move changes nothing, and a move is refused exactly when the
/// node would go under itself or one of its descendants, when the new
/// parent is not found, or when the node is not found below the root.
pub proof fn law_refused_move_changes_nothing(t: OrgTree, id: u64, np: u64)
    ensures
        !moved(t, id, np).1 ==> moved(t, id, np).0 == t,
        (under_itself(t, id, np) || !has_node(t, np) || removed(t, id).1 is None) ==> !moved(t, id, np).1,
{
    let p = removed(t, id);
    if !under_itself(t, id, np) && has_node(t, np) {
        if let Some(n) = p.1 {
            if !has_node(n, np) {
                lemma_relocated_adds(t, id, np);
            }
        }
    }
}

/// The nodes shown of trees `cs` add up from `i` on.
pub proof fn lemma_visible_from_split(cs: Seq<OrgTree>, i: int)
    requires
        0 <= i < cs.len(),
    ensures
        visible_from(cs, i) == visible(cs[i]) + visible_from(cs, i + 1),
{
}

// ------------------------------------------------------------------
// Nodes
// ------------------------------------------------------------------

impl OrgNode {
    /// A root node: a company, unfolded, without children or members.
    pub fn root(id: u64, name: &str) -> (r: OrgNode)
        ensures
            r@ == (OrgTree {
                id,
                name: name@,
                node_type: OrgNodeType::Company,
                parent_id: None,
                children: Seq::empty(),
                member_count: 0,
                expanded: true,
                history: Seq::empty(),
            }),
    {
        let r = OrgNode {
            id,
            name: owned(name),
            node_type: OrgNodeType::Company,
            parent_id: None,
            children: Vec::new(),
            member_count: 0,
            expanded: true,
            history: Vec::new(),
        };
        assert(r@.children =~= Seq::<OrgTree>::empty());
        r
    }

    /// A folded node without children.
    pub fn leaf(
        id: u64,
        name: &str,
        node_type: OrgNodeType,
        parent_id: Option<u64>,
        member_count: u32,
        history: Vec<u32>,
    ) -> (r: OrgNode)
        ensures
            r@ == (OrgTree {
                id,
                name: name@,
                node_type,
                parent_id,
                children: Seq::empty(),
                member_count,
                expanded: false,
                history: history@,
            }),
    {
        let r = OrgNode {
            id,
            name: owned(name),
            node_type,
            parent_id,
            children: Vec::new(),
            member_count,
            expanded: false,
            history,
        };
        assert(r@.children =~= Seq::<OrgTree>::empty());
        r
    }

    /// Appends `child` to this node's children.
    pub fn add_child(&mut self, child: OrgNode)
        ensures
            final(self)@ == (OrgTree { children: old(self)@.children.push(child@), ..old(self)@ }),
    {
        self.children.push(child);
        proof {
            lemma_trees_of_push(old(self).children@, child);
        }
    }

    /// The first node, in pre-order, with identifier `node_id`.
    pub fn find(&self, node_id: u64) -> (r: Option<&OrgNode>)
        ensures
            match r {
                Some(n) => find_tree(self@, node_id) == Some(n@),
                None => find_tree(self@, node_id) is None,
            },
        decreases self@,
    {
        if self.id == node_id {
            return Some(self);
        }
        proof {
            lemma_trees_of(self.children@);
        }
        let mut i: usize = 0;
        while i < self.children.len()
            invariant
                i <= self.children.len(),
                self.id != node_id,
                trees_of(self.children@).len() == self.children.len(),
                forall|j: int| 0 <= j < self.children.len() ==> #[trigger] trees_of(self.children@)[j]
                    == tree_of(self.children@[j]),
                forall|j: int| 0 <= j < i ==> !has_node(#[trigger] self@.children[j], node_id),
            decreases self.children.len() - i,
        {
            assert(self@.children[i as int] == self.children@[i as int]@);
            assert(decreases_to!(self@ => self@.children[i as int]));
            match self.children[i].find(node_id) {
                Some(n) => {
                    proof {
                        lemma_find_from_skip(self@.children, node_id, i as int);
                    }
                    return Some(n);
                },
                None => {},
            }
            i = i + 1;
        }
        proof {
            lemma_find_from_skip(self@.children, node_id, i as int);
        }
        None
    }
}


impl OrgNode {
    /// Folds or unfolds the first node, in pre-order, with identifier
    /// `node_id` (a node without children stays as it is); tells whether
    /// such a node was found.
    pub fn toggle_expanded(&mut self, node_id: u64) -> (r: bool)
        ensures
            r == has_node(old(self)@, node_id),
            final(self)@ == toggled(old(self)@, node_id),
        decreases old(self)@,
    {
        if self.id == node_id {
            if self.children.len() > 0 {
                self.expanded = !self.expanded;
            }
            return true;
        }
        proof {
            lemma_trees_of(self.children@);
        }
        let mut i: usize = 0;
        while i < self.children.len()
            invariant
                i <= self.children.len(),
                self.id != node_id,
                self@ == old(self)@,
                self@.children.len() == self.children.len(),
                forall|j: int| 0 <= j < i ==> !has_node(#[trigger] self@.children[j], node_id),
            decreases self.children.len() - i,
        {
            proof {
                lemma_trees_of(self.children@);
            }
            assert(self@.children[i as int] == self.children@[i as int]@);
            assert(decreases_to!(old(self)@ => self@.children[i as int]));
            let ghost before = self.children@;
            let found = self.children[i].toggle_expanded(node_id);
            proof {
                lemma_trees_of_update(before, i as int, self.children@[i as int]);
                assert(self.children@ == before.update(i as int, self.children@[i as int]));
                lemma_find_from_skip(old(self)@.children, node_id, i as int);
            }
            if found {
                proof {
                    lemma_toggled_from_skip(old(self)@.children, node_id, i as int);
                    assert(self@.children =~= toggled(old(self)@, node_id).children);
                    assert(self@ =~= toggled(old(self)@, node_id));
                }
                return true;
            }
            proof {
                lemma_toggle_absent(old(self)@.children[i as int], node_id);
                assert(self@.children =~= old(self)@.children);
                assert(self@ =~= old(self)@);
            }
            i = i + 1;
        }
        proof {
            lemma_find_from_skip(old(self)@.children, node_id, i as int);
            lemma_toggled_from_skip(old(self)@.children, node_id, i as int);
        }
        false
    }
}


impl OrgNode {
    /// The number of nodes shown: this one, and the shown nodes of its
    /// children when it is unfolded.
    pub fn visible_node_count(&self) -> (r: usize)
        requires
            visible(self@) <= usize::MAX,
        ensures
            r == visible(self@),
        decreases self@,
    {
        if !self.expanded {
            return 1;
        }
        proof {
            lemma_trees_of(self.children@);
        }
        let mut total: usize = 1;
        let mut i: usize = 0;
        while i < self.children.len()
            invariant
                i <= self.children.len(),
                self.expanded,
                self@.children.len() == self.children.len(),
                forall|j: int| 0 <= j < self.children.len() ==> #[trigger] self@.children[j]
                    == self.children@[j]@,
                visible(self@) <= usize::MAX,
                total + visible_from(self@.children, i as int) == visible(self@),
            decreases self.children.len() - i,
        {
            proof {
                lemma_visible_from_split(self@.children, i as int);
            }
            assert(decreases_to!(self@ => self@.children[i as int]));
            let c = self.children[i].visible_node_count();
            total = total + c;
            i = i + 1;
        }
        total
    }

    fn visible_checked(&self) -> (r: Option<usize>)
        ensures
            match r {
                Some(n) => n == visible(self@),
                None => visible(self@) > usize::MAX,
            },
        decreases self@,
    {
        if !self.expanded {
            return Some(1);
        }
        proof {
            lemma_trees_of(self.children@);
        }
        let mut total: usize = 1;
        let mut i: usize = 0;
        while i < self.children.len()
            invariant
                i <= self.children.len(),
                self.expanded,
                self@.children.len() == self.children.len(),
                forall|j: int| 0 <= j < self.children.len() ==> #[trigger] self@.children[j]
                    == self.children@[j]@,
                total + visible_from(self@.children, i as int) == visible(self@),
            decreases self.children.len() - i,
        {
            proof {
                lemma_visible_from_split(self@.children, i as int);
            }
            assert(decreases_to!(self@ => self@.children[i as int]));
            match self.children[i].visible_checked() {
                Some(c) => {
                    match total.checked_add(c) {
                        Some(t) => {
                            total = t;
                        },
                        None => {
                            return None;
                        },
                    }
                },
                None => {
                    return None;
                },
            }
            i = i + 1;
        }
        Some(total)
    }

    /// Whether the number of nodes shown fits in a `usize`, which
    /// `visible_node_count` needs.
    pub fn visible_fits(&self) -> (r: bool)
        ensures
            r == (visible(self@) <= usize::MAX),
    {
        self.visible_checked().is_some()
    }

    /// The number of points in this node's timeline (at least one).
    pub fn timeline_len(&self) -> (r: usize)
        ensures
            r == timeline_of(self@),
    {
        if self.history.len() > 1 {
            self.history.len()
        } else {
            1
        }
    }

    /// The head count at point `index` of the timeline: the recorded one,
    /// else the last one recorded, else the current head count.
    pub fn headcount_at(&self, index: usize) -> (r: u32)
        ensures
            r == headcount_of(self@, index as int),
    {
        headcount_point(self.history.as_slice(), self.member_count, index)
    }

    /// A copy of this tree.
    pub fn duplicate(&self) -> (r: OrgNode)
        ensures
            r@ == self@,
        decreases self@,
    {
        proof {
            lemma_trees_of(self.children@);
        }
        let mut children: Vec<OrgNode> = Vec::new();
        let mut i: usize = 0;
        while i < self.children.len()
            invariant
                i <= self.children.len(),
                children.len() == i,
                self@.children.len() == self.children.len(),
                forall|j: int| 0 <= j < self.children.len() ==> #[trigger] self@.children[j]
                    == self.children@[j]@,
                forall|j: int| 0 <= j < i ==> #[trigger] children@[j]@ == self.children@[j]@,
            decreases self.children.len() - i,
        {
            assert(decreases_to!(self@ => self@.children[i as int]));
            let c = self.children[i].duplicate();
            children.push(c);
            i = i + 1;
        }
        let r = OrgNode {
            id: self.id,
            name: self.name.clone(),
            node_type: self.node_type,
            parent_id: self.parent_id,
            children,
            member_count: self.member_count,
            expanded: self.expanded,
            history: self.history.clone(),
        };
        proof {
            lemma_trees_of(r.children@);
            assert forall|j: int| 0 <= j < self@.children.len() implies r@.children[j] == self@.children[j] by {
                assert(r@.children[j] == r.children@[j]@);
                assert(children@[j]@ == self.children@[j]@);
            }
            assert(r@.children =~= self@.children);
            assert(r@ =~= self@);
        }
        r
    }
}


impl OrgNode {
    /// Takes out the node with identifier `node_id`: a child of this node
    /// is looked for first, then each child's subtree in turn.
    fn remove_child(&mut self, node_id: u64) -> (r: Option<OrgNode>)
        ensures
            final(self)@ == removed(old(self)@, node_id).0,
            match r {
                Some(n) => removed(old(self)@, node_id).1 == Some(n@),
                None => removed(old(self)@, node_id).1 is None,
            },
        decreases old(self)@,
    {
        proof {
            lemma_trees_of(self.children@);
        }
        let mut i: usize = 0;
        while i < self.children.len()
            invariant
                i <= self.children.len(),
                self@ == old(self)@,
                self@.children.len() == self.children.len(),
                forall|j: int| 0 <= j < self.children.len() ==> #[trigger] self@.children[j]
                    == self.children@[j]@,
                forall|j: int| 0 <= j < i ==> (#[trigger] self@.children[j]).id != node_id,
            decreases self.children.len() - i,
        {
            if self.children[i].id == node_id {
                let ghost before = self.children@;
                let n = self.children.remove(i);
                proof {
                    lemma_position_skip(old(self)@.children, node_id, i as int);
                    lemma_trees_of_remove(before, i as int);
                    assert(self@.children =~= removed(old(self)@, node_id).0.children);
                    assert(self@ =~= removed(old(self)@, node_id).0);
                }
                return Some(n);
            }
            i = i + 1;
        }
        proof {
            lemma_position_skip(old(self)@.children, node_id, i as int);
        }
        let mut i: usize = 0;
        while i < self.children.len()
            invariant
                i <= self.children.len(),
                self@ == old(self)@,
                position_from(old(self)@.children, node_id, 0) is None,
                self@.children.len() == self.children.len(),
                forall|j: int| 0 <= j < i ==> (#[trigger] removed(self@.children[j], node_id)).1 is None,
            decreases self.children.len() - i,
        {
            proof {
                lemma_trees_of(self.children@);
            }
            assert(self@.children[i as int] == self.children@[i as int]@);
            assert(decreases_to!(old(self)@ => self@.children[i as int]));
            let ghost before = self.children@;
            let r = self.children[i].remove_child(node_id);
            proof {
                lemma_trees_of_update(before, i as int, self.children@[i as int]);
                assert(self.children@ == before.update(i as int, self.children@[i as int]));
                lemma_removed_from_skip(old(self)@.children, node_id, i as int);
            }
            match r {
                Some(n) => {
                    proof {
                        assert(self@.children =~= removed(old(self)@, node_id).0.children);
                        assert(self@ =~= removed(old(self)@, node_id).0);
                    }
                    return Some(n);
                },
                None => {
                    proof {
                        lemma_removed_none(old(self)@.children[i as int], node_id);
                        assert(self@.children =~= old(self)@.children);
                        assert(self@ =~= old(self)@);
                    }
                },
            }
            i = i + 1;
        }
        proof {
            lemma_removed_from_skip(old(self)@.children, node_id, i as int);
            assert(removed(old(self)@, node_id).0 =~= old(self)@);
        }
        None
    }

    /// Appends `child` to the children of the first node, in pre-order,
    /// with identifier `parent_id`; tells whether there was one.
    fn add_child_to(&mut self, parent_id: u64, child: OrgNode) -> (r: bool)
        ensures
            final(self)@ == added(old(self)@, parent_id, child@).0,
            r == added(old(self)@, parent_id, child@).1,
        decreases old(self)@,
    {
        if self.id == parent_id {
            self.add_child(child);
            return true;
        }
        proof {
            lemma_trees_of(self.children@);
        }
        let mut i: usize = 0;
        while i < self.children.len()
            invariant
                i <= self.children.len(),
                self.id != parent_id,
                self@ == old(self)@,
                self@.children.len() == self.children.len(),
                forall|j: int| 0 <= j < self.children.len() ==> #[trigger] self@.children[j]
                    == self.children@[j]@,
                forall|j: int| 0 <= j < i ==> !has_node(#[trigger] self@.children[j], parent_id),
            decreases self.children.len() - i,
        {
            if self.children[i].find(parent_id).is_some() {
                assert(decreases_to!(old(self)@ => self@.children[i as int]));
                let ghost before = self.children@;
                let ghost c = child@;
                let r = self.children[i].add_child_to(parent_id, child);
                proof {
                    lemma_trees_of_update(before, i as int, self.children@[i as int]);
                    assert(self.children@ == before.update(i as int, self.children@[i as int]));
                    lemma_added_from_skip(old(self)@.children, parent_id, c, i as int);
                    assert(self@.children =~= added(old(self)@, parent_id, c).0.children);
                    assert(self@ =~= added(old(self)@, parent_id, c).0);
                }
                return r;
            }
            i = i + 1;
        }
        proof {
            lemma_added_from_skip(old(self)@.children, parent_id, child@, i as int);
            assert(added(old(self)@, parent_id, child@).0 =~= old(self)@);
        }
        false
    }

    /// Takes the node `node_id` out and puts it, with its new parent
    /// recorded, under the node `new_parent_id`, unless that node is the
    /// moved node itself or one of its descendants; tells whether the node
    /// was put under its new parent. Head counts are not rolled up again.
    fn relocate(&mut self, node_id: u64, new_parent_id: u64) -> (r: bool)
        ensures
            final(self)@ == relocated(old(self)@, node_id, new_parent_id).0,
            r == relocated(old(self)@, node_id, new_parent_id).1,
    {
        if node_id == new_parent_id {
            return false;
        }
        match self.find(node_id) {
            Some(dragged) => {
                if dragged.find(new_parent_id).is_some() {
                    return false;
                }
            },
            None => {},
        }
        if self.find(new_parent_id).is_none() {
            return false;
        }
        match self.removal_target(node_id) {
            None => {
                return false;
            },
            Some(target) => {
                if target.find(new_parent_id).is_some() {
                    return false;
                }
            },
        }
        proof {
            lemma_relocated_adds(old(self)@, node_id, new_parent_id);
        }
        let removed_node = self.remove_child(node_id);
        match removed_node {
            None => false,
            Some(n) => {
                let mut n = n;
                n.parent_id = Some(new_parent_id);
                proof {
                    assert(n@ =~= (OrgTree { parent_id: Some(new_parent_id), ..removed(old(self)@, node_id).1->0 }));
                }
                self.add_child_to(new_parent_id, n)
            },
        }
    }

    /// The node that taking out `node_id` would take out: a child of this
    /// node first, then one in each child's subtree in turn.
    fn removal_target(&self, node_id: u64) -> (r: Option<&OrgNode>)
        ensures
            match r {
                Some(n) => removed(self@, node_id).1 == Some(n@),
                None => removed(self@, node_id).1 is None,
            },
        decreases self@,
    {
        proof {
            lemma_trees_of(self.children@);
        }
        let mut i: usize = 0;
        while i < self.children.len()
            invariant
                i <= self.children.len(),
                self@.children.len() == self.children.len(),
                forall|j: int| 0 <= j < self.children.len() ==> #[trigger] self@.children[j]
                    == self.children@[j]@,
                forall|j: int| 0 <= j < i ==> (#[trigger] self@.children[j]).id != node_id,
            decreases self.children.len() - i,
        {
            if self.children[i].id == node_id {
                proof {
                    lemma_position_skip(self@.children, node_id, i as int);
                }
                return Some(&self.children[i]);
            }
            i = i + 1;
        }
        proof {
            lemma_position_skip(self@.children, node_id, i as int);
        }
        let mut i: usize = 0;
        while i < self.children.len()
            invariant
                i <= self.children.len(),
                position_from(self@.children, node_id, 0) is None,
                self@.children.len() == self.children.len(),
                forall|j: int| 0 <= j < self.children.len() ==> #[trigger] self@.children[j]
                    == self.children@[j]@,
                forall|j: int| 0 <= j < i ==> (#[trigger] removed(self@.children[j], node_id)).1 is None,
            decreases self.children.len() - i,
        {
            assert(self@.children[i as int] == self.children@[i as int]@);
            assert(decreases_to!(self@ => self@.children[i as int]));
            match self.children[i].removal_target(node_id) {
                Some(n) => {
                    proof {
                        lemma_removed_from_skip(self@.children, node_id, i as int);
                    }
                    return Some(n);
                },
                None => {},
            }
            i = i + 1;
        }
        proof {
            lemma_removed_from_skip(self@.children, node_id, i as int);
        }
        None
    }
}


impl OrgNode {
    /// Rolls head counts up; tells whether every count stayed within
    /// `u32` (when one did not, the tree is left part-way).
    fn try_refresh(&mut self) -> (r: bool)
        ensures
            r == rollup_fits(old(self)@),
            r ==> final(self)@ == rollup(old(self)@),
        decreases old(self)@,
    {
        let ghost t = old(self)@;
        proof {
            lemma_trees_of(self.children@);
            lemma_rollup_from(t.children, 0);
            lemma_fits_from(t.children, 0);
        }
        let n = self.children.len();
        let mut i: usize = 0;
        while i < n
            invariant
                i <= n,
                n == self.children.len(),
                t == old(self)@,
                t.children.len() == n,
                self@.children.len() == n,
                self@ == (OrgTree { children: self@.children, ..t }),
                forall|j: int| 0 <= j < i ==> #[trigger] self@.children[j] == rollup(t.children[j]),
                forall|j: int| 0 <= j < i ==> rollup_fits(#[trigger] t.children[j]),
                forall|j: int| i <= j < n ==> #[trigger] self@.children[j] == t.children[j],
            decreases n - i,
        {
            proof {
                lemma_trees_of(self.children@);
            }
            assert(self@.children[i as int] == self.children@[i as int]@);
            assert(decreases_to!(old(self)@ => self@.children[i as int]));
            let ghost before = self.children@;
            let ok = self.children[i].try_refresh();
            proof {
                lemma_trees_of_update(before, i as int, self.children@[i as int]);
                assert(self.children@ == before.update(i as int, self.children@[i as int]));
            }
            if !ok {
                proof {
                    lemma_fits_from(t.children, 0);
                    assert(!rollup_fits(t.children[i as int]));
                    assert(!fits_from(t.children, 0));
                }
                return false;
            }
            i = i + 1;
        }
        let ghost cs = rollup_from(t.children, 0);
        assert(self@.children =~= cs);
        if n == 0 {
            if self.history.len() == 0 {
                self.history = vec![self.member_count];
            }
            proof {
                assert(self@.history =~= rollup(t).history);
                assert(self@ =~= rollup(t));
            }
            return true;
        }
        proof {
            lemma_trees_of(self.children@);
        }
        let mut total: u32 = 0;
        let mut i: usize = 0;
        while i < n
            invariant
                i <= n,
                n == self.children.len(),
                cs.len() == n,
                forall|j: int| 0 <= j < n ==> #[trigger] self.children@[j]@ == cs[j],
                total + members_of(cs, i as int) == members_of(cs, 0),
                fits_from(t.children, 0),
                t == old(self)@,
                cs == rollup_from(t.children, 0),
                t.children.len() == n,
                n > 0,
            decreases n - i,
        {
            assert(members_of(cs, i as int) == cs[i as int].member_count + members_of(cs, i + 1));
            assert(self.children@[i as int]@ == cs[i as int]);
            match total.checked_add(self.children[i].member_count) {
                Some(v) => {
                    total = v;
                },
                None => {
                    proof {
                        assert(members_of(cs, 0) > u32::MAX);
                        assert(!rollup_fits(t));
                    }
                    return false;
                },
            }
            i = i + 1;
        }
        let mut tl: usize = 0;
        let mut i: usize = 0;
        while i < n
            invariant
                i <= n,
                n == self.children.len(),
                cs.len() == n,
                forall|j: int| 0 <= j < n ==> #[trigger] self.children@[j]@ == cs[j],
                (if tl >= timeline_max(cs, i as int) {
                    tl as nat
                } else {
                    timeline_max(cs, i as int)
                }) == timeline_max(cs, 0),
            decreases n - i,
        {
            let l = self.children[i].timeline_len();
            if l > tl {
                tl = l;
            }
            i = i + 1;
        }
        let mut hist: Vec<u32> = Vec::new();
        let mut k: usize = 0;
        while k < tl
            invariant
                k <= tl,
                tl == timeline_max(cs, 0),
                n == self.children.len(),
                cs.len() == n,
                forall|j: int| 0 <= j < n ==> #[trigger] self.children@[j]@ == cs[j],
                hist.len() == k,
                forall|m: int| 0 <= m < k ==> #[trigger] hist@[m] == heads_at(cs, m, 0) as u32,
                forall|m: int| 0 <= m < k ==> #[trigger] heads_at(cs, m, 0) <= u32::MAX,
                members_of(cs, 0) <= u32::MAX,
                fits_from(t.children, 0),
                t == old(self)@,
                cs == rollup_from(t.children, 0),
                t.children.len() == n,
                n > 0,
            decreases tl - k,
        {
            let mut sum: u32 = 0;
            let mut j: usize = 0;
            while j < n
                invariant
                    j <= n,
                    k < tl,
                    tl == timeline_max(cs, 0),
                    n == self.children.len(),
                    cs.len() == n,
                    forall|m: int| 0 <= m < n ==> #[trigger] self.children@[m]@ == cs[m],
                    sum + heads_at(cs, k as int, j as int) == heads_at(cs, k as int, 0),
                    members_of(cs, 0) <= u32::MAX,
                    fits_from(t.children, 0),
                    t == old(self)@,
                    cs == rollup_from(t.children, 0),
                    t.children.len() == n,
                    n > 0,
                decreases n - j,
            {
                assert(heads_at(cs, k as int, j as int) == headcount_of(cs[j as int], k as int) + heads_at(
                    cs,
                    k as int,
                    j + 1,
                ));
                assert(self.children@[j as int]@ == cs[j as int]);
                let h = self.children[j].headcount_at(k);
                match sum.checked_add(h) {
                    Some(v) => {
                        sum = v;
                    },
                    None => {
                        proof {
                            assert(heads_at(cs, k as int, 0) > u32::MAX);
                            assert(!rollup_fits(t));
                        }
                        return false;
                    },
                }
                j = j + 1;
            }
            hist.push(sum);
            k = k + 1;
        }
        self.member_count = total;
        self.history = hist;
        proof {
            assert(self@.history =~= rollup(t).history);
            assert(self@ =~= rollup(t));
        }
        true
    }

    /// Rolls head counts up: a leaf without a recorded timeline gets one
    /// point, its head count; an inner node counts the members of its
    /// rolled-up children, and its timeline, as long as the longest of
    /// theirs, adds up their head counts point by point.
    pub fn refresh_rollup_metrics(&mut self)
        requires
            rollup_fits(old(self)@),
        ensures
            final(self)@ == rollup(old(self)@),
    {
        let _ = self.try_refresh();
    }

    /// Whether rolling this tree up keeps every count within `u32`.
    pub fn rollup_fits(&self) -> (r: bool)
        ensures
            r == rollup_fits(self@),
    {
        let mut probe = self.duplicate();
        probe.try_refresh()
    }
}


impl OrgNode {
    /// Moves the node `node_id` under the node `new_parent_id` and rolls
    /// head counts up; `true` means the move was made, `false` that the
    /// node cannot be moved there: it is not found below the root, the new
    /// parent is not found, or the new parent is the node itself or lies in
    /// its subtree. A refused move changes nothing.
    pub fn move_to_parent(&mut self, node_id: u64, new_parent_id: u64) -> (r: bool)
        requires
            move_fits(old(self)@, node_id, new_parent_id),
        ensures
            final(self)@ == moved(old(self)@, node_id, new_parent_id).0,
            r == moved(old(self)@, node_id, new_parent_id).1,
            !r ==> final(self)@ == old(self)@,
    {
        proof {
            law_refused_move_changes_nothing(old(self)@, node_id, new_parent_id);
        }
        if self.relocate(node_id, new_parent_id) {
            self.refresh_rollup_metrics();
            true
        } else {
            false
        }
    }

    /// Whether moving the node `node_id` under the node `new_parent_id`
    /// keeps every rolled-up count within `u32`.
    pub fn move_fits(&self, node_id: u64, new_parent_id: u64) -> (r: bool)
        ensures
            r == move_fits(self@, node_id, new_parent_id),
    {
        let mut probe = self.duplicate();
        if probe.relocate(node_id, new_parent_id) {
            probe.rollup_fits()
        } else {
            true
        }
    }

    /// What moving the node `node_id` under the node `new_parent_id` would
    /// change.
    pub fn preview_move(&self, node_id: u64, new_parent_id: u64) -> (r: Option<DragChangePreview>)
        ensures
            previews(self@, node_id, new_parent_id, r),
    {
        if node_id == new_parent_id {
            return None;
        }
        let dragged = match self.find(node_id) {
            Some(d) => d,
            None => {
                return None;
            },
        };
        if dragged.find(new_parent_id).is_some() {
            return None;
        }
        let old_parent_id = match dragged.parent_id {
            Some(p) => p,
            None => {
                return None;
            },
        };
        let old_parent = match self.find(old_parent_id) {
            Some(p) => p,
            None => {
                return None;
            },
        };
        let new_parent = match self.find(new_parent_id) {
            Some(p) => p,
            None => {
                return None;
            },
        };
        proof {
            lemma_trees_of(old_parent.children@);
            lemma_trees_of(new_parent.children@);
        }
        Some(
            DragChangePreview {
                node_id,
                node_name: dragged.name.clone(),
                old_parent_id,
                old_parent_name: old_parent.name.clone(),
                new_parent_id,
                new_parent_name: new_parent.name.clone(),
                member_count: dragged.member_count,
                old_parent_remaining_children: old_parent.children.len().saturating_sub(1),
                new_parent_existing_children: new_parent.children.len(),
            },
        )
    }
}


impl OrgNode {
    /// Builds the organisation trees from the department nodes `nodes`
    /// under parent `parent_id`, rolling head counts up.
    pub fn from_api_tree(nodes: Vec<DepartmentTreeNode>, parent_id: Option<u64>) -> (r: Vec<OrgNode>)
        requires
            api_fits_from(nodes@, parent_id, 0),
        ensures
            trees_of(r@) == api_trees(nodes@, parent_id, 0),
        decreases nodes@,
    {
        let ghost orig = nodes@;
        proof {
            lemma_api_trees(orig, parent_id, 0);
        }
        let mut rest = nodes;
        assert(orig.len() == rest.len());
        let mut out: Vec<OrgNode> = Vec::new();
        let mut i: usize = 0;
        while rest.len() > 0
            invariant
                i <= orig.len(),
                rest@ == orig.subrange(i as int, orig.len() as int),
                rest.len() == orig.len() - i,
                orig.len() <= usize::MAX,
                out.len() == i,
                forall|k: int| 0 <= k < i ==> #[trigger] out@[k]@ == api_tree(orig[k], parent_id),
                forall|k: int| 0 <= k < orig.len() ==> api_fits(#[trigger] orig[k], parent_id),
                orig == nodes@,
            decreases rest.len(),
        {
            let node = rest.remove(0);
            assert(node == orig[i as int]);
            let DepartmentTreeNode { id, name, full_name: _, employee_count, leader_name: _, children } = node;
            let member_count: u32 = match employee_count {
                Some(c) => #[verifier::truncate] (c as u32),
                None => 0,
            };
            let has_children = match &children {
                Some(c) => c.len() > 0,
                None => false,
            };
            let node_id = #[verifier::truncate] (id as u64);
            let child_nodes = match children {
                Some(c) => {
                    assert(decreases_to!(nodes@ => c@));
                    proof {
                        lemma_api_trees(c@, Some(node_id), 0);
                    }
                    OrgNode::from_api_tree(c, Some(node_id))
                },
                None => Vec::new(),
            };
            let node_type = if parent_id.is_none() && has_children {
                OrgNodeType::Company
            } else if has_children {
                OrgNodeType::Department
            } else {
                OrgNodeType::Group
            };
            let mut org = OrgNode {
                id: node_id,
                name,
                node_type,
                parent_id,
                children: child_nodes,
                member_count,
                expanded: has_children,
                history: vec![member_count],
            };
            proof {
                assert(org@.children =~= api_unrolled(orig[i as int], parent_id).children);
                assert(org@.history =~= api_unrolled(orig[i as int], parent_id).history);
                assert(org@ =~= api_unrolled(orig[i as int], parent_id));
            }
            org.refresh_rollup_metrics();
            out.push(org);
            i = i + 1;
        }
        proof {
            lemma_trees_of(out@);
            lemma_api_trees(orig, parent_id, 0);
            assert(i == orig.len());
            assert forall|k: int| 0 <= k < orig.len() implies trees_of(out@)[k] == api_trees(orig, parent_id, 0)[k] by {
                assert(api_trees(orig, parent_id, 0)[k] == api_tree(orig[0 + k], parent_id));
                assert(trees_of(out@)[k] == tree_of(out@[k]));
                assert(out@[k]@ == api_tree(orig[k], parent_id));
            }
            assert(trees_of(out@) =~= api_trees(orig, parent_id, 0));
        }
        out
    }
}


/// Point `index` of the timeline `history` of a node with `member_count`
/// members: the recorded head count, else the last one recorded, else
/// `member_count`.
pub fn headcount_point(history: &[u32], member_count: u32, index: usize) -> (r: u32)
    ensures
        r == headcount_in(history@, member_count, index as int),
{
    if index < history.len() {
        history[index]
    } else if history.len() > 0 {
        history[history.len() - 1]
    } else {
        member_count
    }
}

fn branches_checked(node: &OrgNode) -> (r: Option<usize>)
    ensures
        match r {
            Some(n) => n == expanded_branches(node@),
            None => expanded_branches(node@) > usize::MAX,
        },
    decreases node@,
{
    proof {
        lemma_trees_of(node.children@);
    }
    let mut total: usize = if node.children.len() > 0 && node.expanded {
        1
    } else {
        0
    };
    let mut i: usize = 0;
    while i < node.children.len()
        invariant
            i <= node.children.len(),
            node@.children.len() == node.children.len(),
            forall|j: int| 0 <= j < node.children.len() ==> #[trigger] node@.children[j]
                == node.children@[j]@,
            total + branches_from(node@.children, i as int) == expanded_branches(node@),
        decreases node.children.len() - i,
    {
        assert(branches_from(node@.children, i as int) == expanded_branches(node@.children[i as int])
            + branches_from(node@.children, i + 1));
        assert(decreases_to!(node@ => node@.children[i as int]));
        match branches_checked(&node.children[i]) {
            Some(c) => {
                match total.checked_add(c) {
                    Some(t) => {
                        total = t;
                    },
                    None => {
                        return None;
                    },
                }
            },
            None => {
                return None;
            },
        }
        i = i + 1;
    }
    Some(total)
}

/// Whether the number of unfolded nodes with children fits in a `usize`,
/// which `count_expanded_branches` needs.
pub fn branches_fit(node: &OrgNode) -> (r: bool)
    ensures
        r == (expanded_branches(node@) <= usize::MAX),
{
    branches_checked(node).is_some()
}

/// The number of unfolded nodes of `node` that have children.
pub fn count_expanded_branches(node: &OrgNode) -> (r: usize)
    requires
        expanded_branches(node@) <= usize::MAX,
    ensures
        r == expanded_branches(node@),
    decreases node@,
{
    proof {
        lemma_trees_of(node.children@);
    }
    let mut total: usize = if node.children.len() > 0 && node.expanded {
        1
    } else {
        0
    };
    let mut i: usize = 0;
    while i < node.children.len()
        invariant
            i <= node.children.len(),
            node@.children.len() == node.children.len(),
            forall|j: int| 0 <= j < node.children.len() ==> #[trigger] node@.children[j]
                == node.children@[j]@,
            expanded_branches(node@) <= usize::MAX,
            total + branches_from(node@.children, i as int) == expanded_branches(node@),
        decreases node.children.len() - i,
    {
        assert(branches_from(node@.children, i as int) == expanded_branches(node@.children[i as int])
            + branches_from(node@.children, i + 1));
        assert(decreases_to!(node@ => node@.children[i as int]));
        let c = count_expanded_branches(&node.children[i]);
        total = total + c;
        i = i + 1;
    }
    total
}


/// A link of the drawn tree: from the node `source`, at depth `depth`, to
/// its child `target`, which has `fanout` children of its own.
#[derive(Clone, Copy, Debug, PartialEq, Eq, Structural)]
pub struct LinkPlan {
    pub source: u64,
    pub target: u64,
    pub depth: usize,
    pub fanout: usize,
}

/// The nodes drawn for `t` at depth `d`, in pre-order: the node itself and,
/// when it is unfolded, those of each child one level deeper.
pub open spec fn plan_nodes(t: OrgTree, d: nat) -> Seq<(OrgTree, usize)>
    decreases t, 0int,
{
    seq![(t, d as usize)] + if t.expanded {
        plan_nodes_from(t.children, d + 1, 0)
    } else {
        Seq::empty()
    }
}

/// The nodes drawn for the trees `cs`, from the `i`-th on, at depth `d`.
pub open spec fn plan_nodes_from(cs: Seq<OrgTree>, d: nat, i: int) -> Seq<(OrgTree, usize)>
    decreases cs, cs.len() - i,
{
    if i < 0 || i >= cs.len() {
        Seq::empty()
    } else {
        plan_nodes(cs[i], d) + plan_nodes_from(cs, d, i + 1)
    }
}

/// The links drawn for `t` at depth `d`: when it is unfolded, for each
/// child the link to it and then the child's own links.
pub open spec fn plan_links(t: OrgTree, d: nat) -> Seq<LinkPlan>
    decreases t, 0int,
{
    if t.expanded {
        plan_links_from(t.children, t.id, d, 0)
    } else {
        Seq::empty()
    }
}

/// The links drawn from the node `pid` at depth `d` to the trees `cs`,
/// from the `i`-th on, each followed by the links of that tree.
pub open spec fn plan_links_from(cs: Seq<OrgTree>, pid: u64, d: nat, i: int) -> Seq<LinkPlan>
    decreases cs, cs.len() - i,
{
    if i < 0 || i >= cs.len() {
        Seq::empty()
    } else {
        seq![LinkPlan { source: pid, target: cs[i].id, depth: d as usize, fanout: cs[i].children.len() as usize }]
            + plan_links(cs[i], d + 1) + plan_links_from(cs, pid, d, i + 1)
    }
}

/// What is drawn of a tree adds up: as many nodes as are shown, one link
/// fewer than nodes, and the tree's own node first, at the depth asked.
pub proof fn law_layout_plan_counts(t: OrgTree, d: nat)
    ensures
        plan_nodes(t, d).len() == visible(t),
        plan_links(t, d).len() + 1 == visible(t),
        plan_nodes(t, d)[0] == (t, d as usize),
    decreases t, 0int,
{
    lemma_layout_plan_counts_from(t.children, t.id, d + 1, d, 0);
}

/// The counts of what is drawn of the trees `cs`, from the `i`-th on:
/// as many nodes as links, as many as are shown.
pub proof fn lemma_layout_plan_counts_from(cs: Seq<OrgTree>, pid: u64, d: nat, ld: nat, i: int)
    requires
        0 <= i,
        d == ld + 1,
    ensures
        plan_nodes_from(cs, d, i).len() == visible_from(cs, i),
        plan_links_from(cs, pid, ld, i).len() == visible_from(cs, i),
    decreases cs, cs.len() - i,
{
    if i < cs.len() {
        law_layout_plan_counts(cs[i], d);
        lemma_layout_plan_counts_from(cs, pid, d, ld, i + 1);
    }
}

/// Whether `t` is unfolded exactly where the department tree `n` has
/// children, node by node at every depth.
pub open spec fn unfolded_as_api(t: OrgTree, n: DepartmentTreeNode) -> bool
    decreases n, 0int,
{
    match n.children {
        Some(v) => t.expanded == (v@.len() > 0) && t.children.len() == v@.len() && unfolded_from(
            t.children,
            v@,
            0,
        ),
        None => !t.expanded && t.children.len() == 0,
    }
}

/// Whether the trees `cs`, from the `i`-th on, are each unfolded as the
/// department tree beside it in `ns`.
pub open spec fn unfolded_from(cs: Seq<OrgTree>, ns: Seq<DepartmentTreeNode>, i: int) -> bool
    decreases ns, ns.len() - i,
{
    if i < 0 || i >= ns.len() {
        true
    } else {
        unfolded_as_api(cs[i], ns[i]) && unfolded_from(cs, ns, i + 1)
    }
}

proof fn lemma_unfolded_from(cs: Seq<OrgTree>, ns: Seq<DepartmentTreeNode>, i: int)
    requires
        0 <= i <= ns.len(),
    ensures
        unfolded_from(cs, ns, i) <==> forall|k: int| i <= k < ns.len() ==> unfolded_as_api(
            #[trigger] cs[k],
            ns[k],
        ),
    decreases ns.len() - i,
{
    if i < ns.len() {
        lemma_unfolded_from(cs, ns, i + 1);
    }
}

/// Rolling head counts up keeps which nodes are unfolded.
proof fn lemma_rollup_keeps_unfolded(t: OrgTree, n: DepartmentTreeNode)
    requires
        unfolded_as_api(t, n),
    ensures
        unfolded_as_api(rollup(t), n),
    decreases n, 0int,
{
    match n.children {
        Some(v) => {
            let ns = v@;
            lemma_unfolded_from(t.children, ns, 0);
            if t.children.len() > 0 {
                let cs = rollup(t).children;
                lemma_rollup_from(t.children, 0);
                assert forall|k: int| 0 <= k < ns.len() implies unfolded_as_api(#[trigger] cs[k], ns[k]) by {
                    assert(unfolded_as_api(t.children[k], ns[k]));
                    assert(decreases_to!(n => ns[k]));
                    lemma_rollup_keeps_unfolded(t.children[k], ns[k]);
                }
                lemma_unfolded_from(cs, ns, 0);
            }
        },
        None => {},
    }
}

/// The atlas tree built from the service's department tree is unfolded
/// exactly at the departments that have sub-departments, at every depth,
/// and has as many children as each department has.
pub proof fn law_api_tree_unfolded(n: DepartmentTreeNode, parent: Option<u64>)
    ensures
        unfolded_as_api(api_tree(n, parent), n),
    decreases n, 0int,
{
    let u = api_unrolled(n, parent);
    match n.children {
        Some(v) => {
            let ns = v@;
            lemma_api_trees(ns, Some(n.id as u64), 0);
            assert forall|k: int| 0 <= k < ns.len() implies unfolded_as_api(#[trigger] u.children[k], ns[k]) by {
                assert(decreases_to!(n => ns[k]));
                law_api_tree_unfolded(ns[k], Some(n.id as u64));
            }
            lemma_unfolded_from(u.children, ns, 0);
        },
        None => {},
    }
    lemma_rollup_keeps_unfolded(u, n);
}

/// Each tree built from a list of department trees is unfolded as its
/// department tree.
pub proof fn law_api_trees_unfolded(ns: Seq<DepartmentTreeNode>, parent: Option<u64>)
    ensures
        api_trees(ns, parent, 0).len() == ns.len(),
        forall|k: int| 0 <= k < ns.len() ==> unfolded_as_api(#[trigger] api_trees(ns, parent, 0)[k], ns[k]),
{
    lemma_api_trees(ns, parent, 0);
    assert forall|k: int| 0 <= k < ns.len() implies unfolded_as_api(#[trigger] api_trees(ns, parent, 0)[k], ns[k]) by {
        law_api_tree_unfolded(ns[k], parent);
    }
}

/// The head count the service gives a department (0 when it gives none).
pub open spec fn api_members(n: DepartmentTreeNode) -> u32 {
    match n.employee_count {
        Some(c) => c as u32,
        None => 0u32,
    }
}

/// Whether `t`, under parent `parent`, is labelled as the department tree
/// `n` at every depth: the same identifier and name, `parent` as its
/// parent, as many children, and of kind company (at the top) or
/// department when it has sub-departments, else a team with the head
/// count the service gives.
pub open spec fn shaped_as_api(t: OrgTree, n: DepartmentTreeNode, parent: Option<u64>) -> bool
    decreases n, 0int,
{
    &&& t.id == n.id as u64
    &&& t.name == n.name@
    &&& t.parent_id == parent
    &&& match n.children {
        Some(v) => t.children.len() == v@.len() && (v@.len() > 0 ==> t.node_type == (if parent is None {
            OrgNodeType::Company
        } else {
            OrgNodeType::Department
        })) && (v@.len() == 0 ==> t.node_type == OrgNodeType::Group && t.member_count == api_members(n))
            && shaped_from(t.children, v@, Some(n.id as u64), 0),
        None => t.children.len() == 0 && t.node_type == OrgNodeType::Group && t.member_count == api_members(
            n,
        ),
    }
}

/// Whether the trees `cs`, from the `i`-th on, are each labelled as the
/// department tree beside it in `ns`, under parent `parent`.
pub open spec fn shaped_from(cs: Seq<OrgTree>, ns: Seq<DepartmentTreeNode>, parent: Option<u64>, i: int) -> bool
    decreases ns, ns.len() - i,
{
    if i < 0 || i >= ns.len() {
        true
    } else {
        shaped_as_api(cs[i], ns[i], parent) && shaped_from(cs, ns, parent, i + 1)
    }
}

proof fn lemma_shaped_from(cs: Seq<OrgTree>, ns: Seq<DepartmentTreeNode>, parent: Option<u64>, i: int)
    requires
        0 <= i <= ns.len(),
    ensures
        shaped_from(cs, ns, parent, i) <==> forall|k: int| i <= k < ns.len() ==> shaped_as_api(
            #[trigger] cs[k],
            ns[k],
            parent,
        ),
    decreases ns.len() - i,
{
    if i < ns.len() {
        lemma_shaped_from(cs, ns, parent, i + 1);
    }
}

/// Rolling head counts up keeps the labels of every node.
proof fn lemma_rollup_keeps_shape(t: OrgTree, n: DepartmentTreeNode, parent: Option<u64>)
    requires
        shaped_as_api(t, n, parent),
    ensures
        shaped_as_api(rollup(t), n, parent),
    decreases n, 0int,
{
    match n.children {
        Some(v) => {
            let ns = v@;
            let p = Some(n.id as u64);
            lemma_shaped_from(t.children, ns, p, 0);
            if t.children.len() > 0 {
                let cs = rollup(t).children;
                lemma_rollup_from(t.children, 0);
                assert forall|k: int| 0 <= k < ns.len() implies shaped_as_api(#[trigger] cs[k], ns[k], p) by {
                    assert(shaped_as_api(t.children[k], ns[k], p));
                    assert(decreases_to!(n => ns[k]));
                    lemma_rollup_keeps_shape(t.children[k], ns[k], p);
                }
                lemma_shaped_from(cs, ns, p, 0);
            }
        },
        None => {},
    }
}

/// The atlas tree built from the service's department tree under
/// `parent` keeps, at every depth, each department's identifier and name,
/// its parent, and its number of sub-departments; a department with
/// sub-departments is the company at the top and a department below, one
/// without is a team with the head count the service gives.
pub proof fn law_api_tree_shape(n: DepartmentTreeNode, parent: Option<u64>)
    ensures
        shaped_as_api(api_tree(n, parent), n, parent),
    decreases n, 0int,
{
    let u = api_unrolled(n, parent);
    match n.children {
        Some(v) => {
            let ns = v@;
            let p = Some(n.id as u64);
            lemma_api_trees(ns, p, 0);
            assert forall|k: int| 0 <= k < ns.len() implies shaped_as_api(#[trigger] u.children[k], ns[k], p) by {
                assert(decreases_to!(n => ns[k]));
                law_api_tree_shape(ns[k], p);
            }
            lemma_shaped_from(u.children, ns, p, 0);
        },
        None => {},
    }
    lemma_rollup_keeps_shape(u, n, parent);
}

/// The trees and depths of a list of drawn nodes.
pub open spec fn planned_view(v: Seq<(&OrgNode, usize)>) -> Seq<(OrgTree, usize)> {
    v.map_values(|p: (&OrgNode, usize)| (p.0@, p.1))
}

fn plan_into<'a>(node: &'a OrgNode, depth: usize, nodes: &mut Vec<(&'a OrgNode, usize)>, links: &mut Vec<LinkPlan>)
    requires
        old(nodes).len() >= depth,
    ensures
        planned_view(final(nodes)@) == planned_view(old(nodes)@) + plan_nodes(node@, depth as nat),
        final(links)@ == old(links)@ + plan_links(node@, depth as nat),
    decreases node@,
{
    proof {
        lemma_trees_of(node.children@);
    }
    let ghost n0 = planned_view(nodes@);
    let ghost l0 = links@;
    nodes.push((node, depth));
    assert(planned_view(nodes@) =~= n0 + seq![(node@, depth)]);
    if !node.expanded {
        assert(planned_view(nodes@) =~= n0 + plan_nodes(node@, depth as nat));
        assert(links@ =~= l0 + plan_links(node@, depth as nat));
        return;
    }
    let count = nodes.len();
    assert(count >= depth + 1);
    let next = depth + 1;
    let ghost cs = node@.children;
    let mut i: usize = 0;
    while i < node.children.len()
        invariant
            i <= node.children.len(),
            node.expanded,
            next == depth + 1,
            nodes.len() >= next,
            cs == node@.children,
            cs.len() == node.children.len(),
            forall|j: int| 0 <= j < node.children.len() ==> #[trigger] cs[j] == node.children@[j]@,
            planned_view(nodes@) + plan_nodes_from(cs, next as nat, i as int) == n0 + plan_nodes(node@, depth as nat),
            links@ + plan_links_from(cs, node.id, depth as nat, i as int) == l0 + plan_links(node@, depth as nat),
        decreases node.children.len() - i,
    {
        let c = &node.children[i];
        assert(decreases_to!(node@ => node@.children[i as int]));
        let ghost nb = planned_view(nodes@);
        let ghost lb = links@;
        links.push(LinkPlan { source: node.id, target: c.id, depth, fanout: c.children.len() });
        proof {
            lemma_trees_of(c.children@);
        }
        plan_into(c, next, nodes, links);
        assert(planned_view(nodes@) + plan_nodes_from(cs, next as nat, i + 1) =~= nb + plan_nodes_from(cs, next as nat, i as int));
        assert(links@ + plan_links_from(cs, node.id, depth as nat, i + 1) =~= lb + plan_links_from(cs, node.id, depth as nat, i as int));
        i = i + 1;
    }
    assert(planned_view(nodes@) =~= n0 + plan_nodes(node@, depth as nat));
    assert(links@ =~= l0 + plan_links(node@, depth as nat));
}

/// What is drawn of `tree`: its shown nodes, each with its depth, in
/// pre-order, and the links from each unfolded node to its children.
pub fn layout_plan(tree: &OrgNode) -> (r: (Vec<(&OrgNode, usize)>, Vec<LinkPlan>))
    ensures
        planned_view(r.0@) == plan_nodes(tree@, 0),
        r.1@ == plan_links(tree@, 0),
{
    let mut nodes: Vec<(&OrgNode, usize)> = Vec::new();
    let mut links: Vec<LinkPlan> = Vec::new();
    plan_into(tree, 0, &mut nodes, &mut links);
    assert(planned_view(nodes@) =~= plan_nodes(tree@, 0));
    assert(links@ =~= plan_links(tree@, 0));
    (nodes, links)
}

/// The name of a node's kind.
pub open spec fn kind_label(t: OrgNodeType) -> Seq<char> {
    match t {
        OrgNodeType::Company => "公司"@,
        OrgNodeType::Department => "部门"@,
        OrgNodeType::Group => "小组"@,
    }
}

/// The name of a node's kind, as the node panel shows it.
pub fn node_type_label(t: OrgNodeType) -> (r: &'static str)
    ensures
        r@ == kind_label(t),
{
    match t {
        OrgNodeType::Company => "公司",
        OrgNodeType::Department => "部门",
        OrgNodeType::Group => "小组",
    }
}

/// What the fold button of the node panel says.
pub fn expand_label(node: &OrgNode) -> (r: &'static str)
    ensures
        r@ == (if node@.children.len() == 0 {
            "没有下级结构"@
        } else if node@.expanded {
            "收起下级结构"@
        } else {
            "展开下级结构"@
        }),
{
    proof {
        lemma_trees_of(node.children@);
    }
    if node.children.len() == 0 {
        "没有下级结构"
    } else if node.expanded {
        "收起下级结构"
    } else {
        "展开下级结构"
    }
}

/// The months of the timeline, oldest first.
pub open spec fn history_months() -> Seq<Seq<char>> {
    seq!["2025.12"@, "2026.01"@, "2026.02"@, "2026.03"@, "2026.04"@, "2026.05"@]
}

/// The month of point `index` of the timeline (the last month past the end).
pub fn history_month(index: usize) -> (r: &'static str)
    ensures
        r@ == (if index < 6 {
            history_months()[index as int]
        } else {
            history_months()[5]
        }),
{
    if index == 0 {
        "2025.12"
    } else if index == 1 {
        "2026.01"
    } else if index == 2 {
        "2026.02"
    } else if index == 3 {
        "2026.03"
    } else if index == 4 {
        "2026.04"
    } else {
        "2026.05"
    }
}

/// The largest head count of a node's timeline (1 when it has none), the
/// top of its chart.
pub fn history_peak(node: &OrgNode) -> (r: u32)
    ensures
        node.history@.len() == 0 ==> r == 1,
        node.history@.len() > 0 ==> node.history@.contains(r) && forall|i: int|
            0 <= i < node.history@.len() ==> node.history@[i] <= r,
{
    if node.history.len() == 0 {
        return 1;
    }
    let mut best = node.history[0];
    let mut i: usize = 1;
    while i < node.history.len()
        invariant
            1 <= i <= node.history.len(),
            node.history@.contains(best),
            forall|k: int| 0 <= k < i ==> node.history@[k] <= best,
        decreases node.history.len() - i,
    {
        if node.history[i] > best {
            best = node.history[i];
        }
        i = i + 1;
    }
    best
}

/// The point of the timeline the slider lands on: the value read, kept
/// within the `labels` points; nothing when the value is not a number.
pub fn timeline_point(value: Option<usize>, labels: usize) -> (r: Option<usize>)
    ensures
        value is None ==> r is None,
        value matches Some(v) ==> r == Some(
            if labels == 0 {
                0usize
            } else if v < labels {
                v
            } else {
                (labels - 1) as usize
            },
        ),
{
    let max = labels.saturating_sub(1);
    match value {
        Some(v) => Some(if v <= max {
            v
        } else {
            max
        }),
        None => None,
    }
}

} // verus!
