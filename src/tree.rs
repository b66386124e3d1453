//! The nested layer tree, rebuilt from the flat layer list and its child levels.
use vstd::prelude::*;

use crate::document::Aseprite;
use crate::error::{AseResult, AsepriteError, AsepriteInvalidError, invalid};
use crate::layer::{AsepriteLayer, GroupLayer, LayerView, NormalLayer, belong_groups, group_below, group_chain, layers_view};

verus! {

/// A node of the layer tree: a group with its children in index order, or a normal layer.
#[derive(Debug)]
pub enum LayerTreeNode<'a> {
    Group(&'a GroupLayer, Vec<LayerTreeNode<'a>>),
    Normal(&'a NormalLayer),
}

/// The mathematical value of a layer tree node.
pub enum TreeView {
    Group(LayerView, Seq<TreeView>),
    Leaf(LayerView),
}

impl TreeView {
    /// The layer at the node.
    pub open spec fn layer(self) -> LayerView {
        match self {
            TreeView::Group(l, _) => l,
            TreeView::Leaf(l) => l,
        }
    }
}

/// The value of a node.
pub open spec fn node_view(n: LayerTreeNode) -> TreeView
    decreases n, 0nat,
{
    match n {
        LayerTreeNode::Group(g, children) => TreeView::Group(
            AsepriteLayer::Group(*g)@,
            forest_prefix_view(children@, children@.len()),
        ),
        LayerTreeNode::Normal(l) => TreeView::Leaf(AsepriteLayer::Normal(*l)@),
    }
}

/// The values of the first `k` nodes of `s`.
pub open spec fn forest_prefix_view(s: Seq<LayerTreeNode>, k: nat) -> Seq<TreeView>
    decreases s, k,
{
    if k == 0 || k > s.len() {
        Seq::empty()
    } else {
        forest_prefix_view(s, (k - 1) as nat).push(node_view(s[k - 1]))
    }
}

/// The values of a list of nodes.
pub open spec fn forest_view(s: Seq<LayerTreeNode>) -> Seq<TreeView> {
    forest_prefix_view(s, s.len())
}

/// The node that a layer starts as: a group without children, or a leaf.
pub open spec fn fresh_node(l: LayerView) -> TreeView {
    if l.is_group {
        TreeView::Group(l, Seq::empty())
    } else {
        TreeView::Leaf(l)
    }
}

/// `f` with `x` appended at `depth` levels down, each level going into the last node; `None`
/// where that node is missing or is not a group.
pub open spec fn insert_forest(f: Seq<TreeView>, depth: nat, x: TreeView) -> Option<Seq<TreeView>>
    decreases depth,
{
    if depth == 0 {
        Some(f.push(x))
    } else if f.len() == 0 {
        None
    } else {
        match f.last() {
            TreeView::Leaf(_) => None,
            TreeView::Group(l, children) => match insert_forest(children, (depth - 1) as nat, x) {
                None => None,
                Some(c) => Some(f.drop_last().push(TreeView::Group(l, c))),
            },
        }
    }
}

/// The tree of the first `n` layers, each placed at its child level under the most recent
/// group one level up; `None` where a layer has no such place.
pub open spec fn build_forest(layers: Seq<LayerView>, n: nat) -> Option<Seq<TreeView>>
    decreases n,
{
    if n == 0 {
        Some(Seq::empty())
    } else {
        match build_forest(layers, (n - 1) as nat) {
            None => None,
            Some(f) => insert_forest(f, layers[n - 1].child_level as nat, fresh_node(layers[n - 1])),
        }
    }
}

/// Whether layer `i` is the first one that the builder cannot place.
pub open spec fn first_misplaced(layers: Seq<LayerView>, i: int) -> bool {
    build_forest(layers, i as nat) is Some && build_forest(layers, (i + 1) as nat) is None
}

/// The layers of a node and its descendants in index order, each with its depth.
pub open spec fn flatten_tree(t: TreeView, depth: int) -> Seq<(LayerView, int)>
    decreases t, 0nat,
{
    match t {
        TreeView::Group(l, children) => seq![(l, depth)] + flatten_forest(children, children.len(), depth + 1),
        TreeView::Leaf(l) => seq![(l, depth)],
    }
}

/// The layers of the first `k` trees of `f` in index order, each with its depth.
pub open spec fn flatten_forest(f: Seq<TreeView>, k: nat, depth: int) -> Seq<(LayerView, int)>
    decreases f, k,
{
    if k == 0 || k > f.len() {
        Seq::empty()
    } else {
        flatten_forest(f, (k - 1) as nat, depth) + flatten_tree(f[k - 1], depth)
    }
}

/// The flat layer list with each layer's declared depth.
pub open spec fn with_levels(layers: Seq<LayerView>, n: nat) -> Seq<(LayerView, int)> {
    Seq::new(n, |i: int| (layers[i], layers[i].child_level as int))
}

proof fn lemma_forest_prefix_view_stable(s: Seq<LayerTreeNode>, t: Seq<LayerTreeNode>, k: nat)
    requires
        k <= s.len(),
        k <= t.len(),
        forall|i: int| 0 <= i < k ==> s[i] == t[i],
    ensures
        forest_prefix_view(s, k) == forest_prefix_view(t, k),
    decreases k,
{
    if k > 0 {
        lemma_forest_prefix_view_stable(s, t, (k - 1) as nat);
    }
}

proof fn lemma_forest_view_len(s: Seq<LayerTreeNode>, k: nat)
    requires
        k <= s.len(),
    ensures
        forest_prefix_view(s, k).len() == k,
        forall|i: int| 0 <= i < k ==> #[trigger] forest_prefix_view(s, k)[i] == node_view(s[i]),
    decreases k,
{
    if k > 0 {
        lemma_forest_view_len(s, (k - 1) as nat);
    }
}

proof fn lemma_forest_view_push(s: Seq<LayerTreeNode>, x: LayerTreeNode)
    ensures
        forest_view(s.push(x)) == forest_view(s).push(node_view(x)),
{
    lemma_forest_prefix_view_stable(s, s.push(x), s.len());
}

proof fn lemma_forest_view_drop_last(s: Seq<LayerTreeNode>)
    requires
        s.len() > 0,
    ensures
        forest_view(s) == forest_view(s.drop_last()).push(node_view(s.last())),
{
    lemma_forest_prefix_view_stable(s, s.drop_last(), (s.len() - 1) as nat);
}

proof fn lemma_flatten_forest_stable(f: Seq<TreeView>, g: Seq<TreeView>, k: nat, depth: int)
    requires
        k <= f.len(),
        k <= g.len(),
        forall|i: int| 0 <= i < k ==> f[i] == g[i],
    ensures
        flatten_forest(f, k, depth) == flatten_forest(g, k, depth),
    decreases k,
{
    if k > 0 {
        lemma_flatten_forest_stable(f, g, (k - 1) as nat, depth);
    }
}

/// Appending `x` at `depth` levels down appends its layers, at that depth, to the flat list.
proof fn lemma_insert_flatten(f: Seq<TreeView>, depth: nat, x: TreeView, base: int)
    requires
        insert_forest(f, depth, x) is Some,
    ensures
        ({
            let g = insert_forest(f, depth, x)->0;
            flatten_forest(g, g.len(), base) == flatten_forest(f, f.len(), base) + flatten_tree(x, base + depth)
        }),
    decreases depth,
{
    let g = insert_forest(f, depth, x)->0;
    if depth == 0 {
        lemma_flatten_forest_stable(g, f, f.len(), base);
    } else {
        let last = f.last();
        match last {
            TreeView::Group(l, children) => {
                lemma_insert_flatten(children, (depth - 1) as nat, x, base + 1);
                let c = insert_forest(children, (depth - 1) as nat, x)->0;
                lemma_flatten_forest_stable(g, f, (f.len() - 1) as nat, base);
                assert(flatten_tree(TreeView::Group(l, c), base) =~= flatten_tree(last, base) + flatten_tree(
                    x,
                    base + depth,
                ));
                assert(flatten_forest(g, g.len(), base) =~= flatten_forest(f, f.len(), base) + flatten_tree(
                    x,
                    base + depth,
                ));
            },
            TreeView::Leaf(_) => {},
        }
    }
}

/// Flattening the tree that the builder makes gives back the flat layer list in index
/// order, every layer exactly once and at the depth that it declared.
pub proof fn lemma_tree_round_trip(layers: Seq<LayerView>, n: nat)
    requires
        n <= layers.len(),
        build_forest(layers, n) is Some,
    ensures
        ({
            let f = build_forest(layers, n)->0;
            flatten_forest(f, f.len(), 0) == with_levels(layers, n)
        }),
    decreases n,
{
    if n == 0 {
        assert(with_levels(layers, 0) =~= Seq::empty());
    } else {
        lemma_tree_round_trip(layers, (n - 1) as nat);
        let f = build_forest(layers, (n - 1) as nat)->0;
        let x = fresh_node(layers[n - 1]);
        lemma_insert_flatten(f, layers[n - 1].child_level as nat, x, 0);
        assert(flatten_tree(x, layers[n - 1].child_level as int) =~= seq![(layers[n - 1], layers[n - 1].child_level as int)]);
        assert(with_levels(layers, n) =~= with_levels(layers, (n - 1) as nat).push((layers[n - 1], layers[n - 1].child_level as int)));
    }
}


/// The last branch of a forest, from the root down: the layer of each node on it and
/// whether that node is a group.
pub open spec fn last_branch(f: Seq<TreeView>) -> Seq<(LayerView, bool)>
    decreases f,
{
    if f.len() == 0 {
        Seq::empty()
    } else {
        match f[f.len() - 1] {
            TreeView::Group(l, children) => seq![(l, true)] + last_branch(children),
            TreeView::Leaf(l) => seq![(l, false)],
        }
    }
}

/// The groups under which the builder places layer `n`, innermost first: the first
/// `child_level` nodes of the last branch of the tree of the layers before it.
pub open spec fn placement_chain(layers: Seq<LayerView>, n: nat) -> Seq<usize> {
    let b = last_branch(build_forest(layers, n)->0);
    let d = layers[n as int].child_level as int;
    Seq::new(d as nat, |k: int| b[d - 1 - k].0.index)
}

proof fn lemma_insert_branch(f: Seq<TreeView>, depth: nat, x: TreeView)
    requires
        insert_forest(f, depth, x) is Some,
        x matches TreeView::Group(_, c) ==> c.len() == 0,
    ensures
        last_branch(f).len() >= depth,
        forall|k: int| 0 <= k < depth ==> (#[trigger] last_branch(f)[k]).1,
        last_branch(insert_forest(f, depth, x)->0) == last_branch(f).take(depth as int).push((x.layer(), x is Group)),
    decreases depth,
{
    let g = insert_forest(f, depth, x)->0;
    if depth == 0 {
        assert(g[g.len() - 1] == x);
        match x {
            TreeView::Group(l, c) => {
                assert(last_branch(c) =~= Seq::<(LayerView, bool)>::empty());
            },
            TreeView::Leaf(l) => {},
        }
        assert(last_branch(g) =~= last_branch(f).take(0).push((x.layer(), x is Group)));
    } else {
        match f[f.len() - 1] {
            TreeView::Group(l, children) => {
                lemma_insert_branch(children, (depth - 1) as nat, x);
                let c = insert_forest(children, (depth - 1) as nat, x)->0;
                assert(g[g.len() - 1] == TreeView::Group(l, c));
                assert(last_branch(g) =~= last_branch(f).take(depth as int).push((x.layer(), x is Group)));
                assert forall|k: int| 0 <= k < depth implies (#[trigger] last_branch(f)[k]).1 by {
                    if k > 0 {
                        assert(last_branch(f)[k] == last_branch(children)[k - 1]);
                    }
                }
            },
            TreeView::Leaf(_) => {},
        }
    }
}

/// What holds of the last branch of the tree of the first `n` layers: node `k` is the
/// layer with index `j` at child level `k`, a group node only for a group layer, and every
/// later layer is nested deeper than `k`.
pub open spec fn branch_inv(layers: Seq<LayerView>, n: nat, b: Seq<(LayerView, bool)>) -> bool {
    forall|k: int|
        0 <= k < b.len() ==> {
            let j = (#[trigger] b[k]).0.index as int;
            &&& 0 <= j < n
            &&& layers[j] == b[k].0
            &&& layers[j].child_level == k
            &&& b[k].1 == layers[j].is_group
            &&& forall|m: int| j < m < n ==> #[trigger] layers[m].child_level > k
        }
}

proof fn lemma_build_branch(layers: Seq<LayerView>, n: nat)
    requires
        n <= layers.len(),
        forall|i: int| 0 <= i < layers.len() ==> #[trigger] layers[i].index == i,
        build_forest(layers, n) is Some,
    ensures
        branch_inv(layers, n, last_branch(build_forest(layers, n)->0)),
    decreases n,
{
    if n > 0 {
        let k0 = (n - 1) as nat;
        lemma_build_none_sticks_contra(layers, k0, n);
        lemma_build_branch(layers, k0);
        let f = build_forest(layers, k0)->0;
        let x = fresh_node(layers[k0 as int]);
        let d = layers[k0 as int].child_level as nat;
        lemma_insert_branch(f, d, x);
        let b = last_branch(f);
        let b2 = last_branch(build_forest(layers, n)->0);
        assert(b2 == b.take(d as int).push((x.layer(), x is Group)));
        assert forall|k: int| 0 <= k < b2.len() implies {
            let j = (#[trigger] b2[k]).0.index as int;
            &&& 0 <= j < n
            &&& layers[j] == b2[k].0
            &&& layers[j].child_level == k
            &&& b2[k].1 == layers[j].is_group
            &&& forall|m: int| j < m < n ==> #[trigger] layers[m].child_level > k
        } by {
            if k < d {
                assert(b2[k] == b[k]);
            } else {
                assert(b2[k] == (layers[k0 as int], x is Group));
            }
        }
    }
}

proof fn lemma_build_none_sticks_contra(layers: Seq<LayerView>, k: nat, n: nat)
    requires
        k <= n,
        build_forest(layers, n) is Some,
    ensures
        build_forest(layers, k) is Some,
{
    if build_forest(layers, k) is None {
        lemma_build_none_sticks(layers, k, n);
    }
}

proof fn lemma_group_below_finds(layers: Seq<LayerView>, cur: int, j: int, level: int)
    requires
        0 <= j < cur <= layers.len(),
        layers[j].is_group,
        layers[j].child_level == level,
        forall|m: int| j < m < cur ==> #[trigger] layers[m].child_level > level,
    ensures
        group_below(layers, cur, level) == Some(j),
    decreases cur,
{
    if cur - 1 > j {
        lemma_group_below_finds(layers, cur - 1, j, level);
    }
}

proof fn lemma_chain_from(layers: Seq<LayerView>, n: nat, b: Seq<(LayerView, bool)>, cur: int, t: int)
    requires
        n < layers.len(),
        branch_inv(layers, n, b),
        0 <= t <= b.len(),
        forall|k: int| 0 <= k < t ==> (#[trigger] b[k]).1,
        t == 0 || b[t - 1].0.index < cur <= n,
        forall|m: int| t > 0 && b[t - 1].0.index < m < cur ==> #[trigger] layers[m].child_level > t - 1,
    ensures
        group_chain(layers, cur, t) == Seq::new(t as nat, |k: int| b[t - 1 - k].0.index),
    decreases t,
{
    if t == 0 {
        assert(group_chain(layers, cur, t) =~= Seq::new(t as nat, |k: int| b[t - 1 - k].0.index));
    } else {
        let j = b[t - 1].0.index as int;
        assert(b[t - 1].1);
        lemma_group_below_finds(layers, cur, j, t - 1);
        if t > 1 {
            let j2 = b[t - 2].0.index as int;
            assert(layers[j].child_level == t - 1);
            assert(layers[j2].child_level == t - 2);
            assert(j2 < j) by {
                if j2 > j {
                    assert(layers[j2].child_level > t - 1);
                }
            }
        }
        lemma_chain_from(layers, n, b, j, t - 1);
        assert(group_chain(layers, cur, t) =~= Seq::new(t as nat, |k: int| b[t - 1 - k].0.index));
    }
}

/// The groups that the "groups containing a layer" query finds are the groups under which
/// the tree builder places that layer, innermost first.
pub proof fn lemma_group_chain_matches_tree(layers: Seq<LayerView>, n: nat)
    requires
        n < layers.len(),
        forall|i: int| 0 <= i < layers.len() ==> #[trigger] layers[i].index == i,
        build_forest(layers, n + 1) is Some,
    ensures
        belong_groups(layers, n as int) == placement_chain(layers, n),
{
    lemma_build_none_sticks_contra(layers, n, n + 1);
    lemma_build_branch(layers, n);
    let f = build_forest(layers, n)->0;
    let d = layers[n as int].child_level as nat;
    lemma_insert_branch(f, d, fresh_node(layers[n as int]));
    let b = last_branch(f);
    lemma_chain_from(layers, n, b, n as int, d as int);
}


/// Whether layer `i` follows a group one level up with only deeper layers between them.
pub open spec fn has_parent_group(layers: Seq<LayerView>, i: int) -> bool {
    exists|g: int|
        0 <= g < i && layers[g].is_group && layers[g].child_level == layers[i].child_level - 1 && forall|m: int|
            g < m < i ==> #[trigger] layers[m].child_level >= layers[i].child_level
}

/// Whether every nested layer among the first `n` follows a group one level up, with only
/// deeper layers between them.
pub open spec fn well_nested(layers: Seq<LayerView>, n: nat) -> bool {
    forall|i: int| 0 <= i < n && layers[i].child_level > 0 ==> #[trigger] has_parent_group(layers, i)
}

/// The shape of the last branch of the tree of the first `n` layers: it reaches the depth of
/// the last layer, and every node on it but the last is a group node.
pub open spec fn branch_shape(layers: Seq<LayerView>, n: nat, b: Seq<(LayerView, bool)>) -> bool {
    &&& b.len() == if n == 0 { 0 } else { layers[n - 1].child_level + 1 }
    &&& forall|k: int| 0 <= k < b.len() - 1 ==> (#[trigger] b[k]).1
}

proof fn lemma_insert_some(f: Seq<TreeView>, depth: nat, x: TreeView)
    requires
        last_branch(f).len() >= depth,
        forall|k: int| 0 <= k < depth ==> (#[trigger] last_branch(f)[k]).1,
    ensures
        insert_forest(f, depth, x) is Some,
    decreases depth,
{
    if depth > 0 {
        assert(last_branch(f)[0].1);
        match f[f.len() - 1] {
            TreeView::Group(l, children) => {
                assert forall|k: int| 0 <= k < depth - 1 implies (#[trigger] last_branch(children)[k]).1 by {
                    assert(last_branch(f)[k + 1] == last_branch(children)[k]);
                }
                lemma_insert_some(children, (depth - 1) as nat, x);
            },
            TreeView::Leaf(_) => {},
        }
    }
}

proof fn lemma_well_nested_shape(layers: Seq<LayerView>, n: nat)
    requires
        n <= layers.len(),
        forall|i: int| 0 <= i < layers.len() ==> #[trigger] layers[i].index == i,
        well_nested(layers, n),
    ensures
        build_forest(layers, n) is Some,
        branch_shape(layers, n, last_branch(build_forest(layers, n)->0)),
    decreases n,
{
    if n == 0 {
        assert(last_branch(Seq::<TreeView>::empty()) =~= Seq::<(LayerView, bool)>::empty());
    } else {
        let k0 = (n - 1) as nat;
        assert(well_nested(layers, k0));
        lemma_well_nested_shape(layers, k0);
        lemma_build_branch(layers, k0);
        let f = build_forest(layers, k0)->0;
        let b = last_branch(f);
        let d = layers[k0 as int].child_level as int;
        let x = fresh_node(layers[k0 as int]);
        if d > 0 {
            assert(has_parent_group(layers, k0 as int));
            let g = choose|g: int|
                0 <= g < k0 && layers[g].is_group && layers[g].child_level == d - 1 && forall|m: int|
                    g < m < k0 ==> #[trigger] layers[m].child_level >= d;
            if g < k0 - 1 {
                assert(layers[k0 - 1].child_level >= d);
            }
            assert(b.len() >= d);
            let j = b[d - 1].0.index as int;
            assert(layers[j].child_level == d - 1);
            assert(j == g) by {
                if j < g {
                    assert(layers[g].child_level > d - 1);
                } else if j > g {
                    assert(layers[j].child_level >= d);
                }
            }
            assert forall|k: int| 0 <= k < d implies (#[trigger] b[k]).1 by {
                if k < d - 1 {
                    assert(k < b.len() - 1);
                }
            }
        }
        lemma_insert_some(f, d as nat, x);
        lemma_insert_branch(f, d as nat, x);
        let b2 = last_branch(build_forest(layers, n)->0);
        assert(b2 == b.take(d).push((x.layer(), x is Group)));
        assert forall|k: int| 0 <= k < b2.len() - 1 implies (#[trigger] b2[k]).1 by {
            assert(b2[k] == b[k]);
        }
    }
}

/// Well-nested layers always build: where every nested layer follows a group one level up,
/// with only deeper layers between them, the tree builder places every layer.
pub proof fn lemma_well_nested_layers_build(layers: Seq<LayerView>, n: nat)
    requires
        n <= layers.len(),
        forall|i: int| 0 <= i < layers.len() ==> #[trigger] layers[i].index == i,
        well_nested(layers, n),
    ensures
        build_forest(layers, n) is Some,
{
    lemma_well_nested_shape(layers, n);
}

impl<'a> LayerTreeNode<'a> {
    /// Whether the node is a group.
    pub fn is_group(&self) -> (r: bool)
        ensures
            r == (node_view(*self) is Group),
    {
        match self {
            LayerTreeNode::Group(..) => true,
            LayerTreeNode::Normal(..) => false,
        }
    }

    /// Whether the node is a normal layer.
    pub fn is_normal(&self) -> (r: bool)
        ensures
            r == (node_view(*self) is Leaf),
    {
        match self {
            LayerTreeNode::Group(..) => false,
            LayerTreeNode::Normal(..) => true,
        }
    }

    /// The name of the node's layer.
    pub fn name(&self) -> (r: &'a str)
        ensures
            r@ == node_view(*self).layer().name,
    {
        match self {
            LayerTreeNode::Group(layer, _) => layer.name.as_str(),
            LayerTreeNode::Normal(layer) => layer.name.as_str(),
        }
    }

    /// The children of a group node, in index order; none for a normal layer.
    pub fn children(&self) -> (r: &[LayerTreeNode<'a>])
        ensures
            node_view(*self) matches TreeView::Group(_, c) ==> forest_view(r@) == c,
            node_view(*self) is Leaf ==> r@.len() == 0,
    {
        match self {
            LayerTreeNode::Group(_, children) => children.as_slice(),
            LayerTreeNode::Normal(_) => &[],
        }
    }
}

/// Appends `x` at `depth` levels down, each level going into the last node.
fn insert_node<'a>(nodes: &mut Vec<LayerTreeNode<'a>>, depth: u16, x: LayerTreeNode<'a>) -> (ok: bool)
    ensures
        ok == insert_forest(forest_view(old(nodes)@), depth as nat, node_view(x)) is Some,
        ok ==> forest_view(final(nodes)@) == insert_forest(forest_view(old(nodes)@), depth as nat, node_view(x))->0,
    decreases depth,
{
    proof {
        lemma_forest_view_len(nodes@, nodes@.len());
    }
    if depth == 0 {
        proof {
            lemma_forest_view_push(nodes@, x);
        }
        nodes.push(x);
        return true;
    }
    let ghost before = nodes@;
    match nodes.pop() {
        None => false,
        Some(LayerTreeNode::Normal(l)) => {
            proof {
                lemma_forest_view_drop_last(before);
            }
            nodes.push(LayerTreeNode::Normal(l));
            false
        },
        Some(LayerTreeNode::Group(g, children)) => {
            proof {
                lemma_forest_view_drop_last(before);
            }
            let mut children = children;
            let ok = insert_node(&mut children, depth - 1, x);
            let ghost rest = nodes@;
            let node = LayerTreeNode::Group(g, children);
            proof {
                lemma_forest_view_push(rest, node);
            }
            nodes.push(node);
            ok
        },
    }
}

/// Rebuilds the layer tree from layers in index order: a layer at child level `d` goes
/// `d` levels down, each level into the most recent node, which must be a group. A layer
/// that has no such place makes the whole build fail with its index.
pub fn build_layer_tree<'a>(layers: &'a Vec<AsepriteLayer>) -> (r: AseResult<Vec<LayerTreeNode<'a>>>)
    ensures
        match r {
            Ok(v) => build_forest(layers_view(layers@), layers@.len()) == Some(forest_view(v@)),
            Err(e) => build_forest(layers_view(layers@), layers@.len()) is None && exists|i: int|
                0 <= i < layers@.len() && #[trigger] first_misplaced(layers_view(layers@), i)
                    && e == invalid(AsepriteInvalidError::InvalidLayer(i as usize)),
        },
{
    let ghost v = layers_view(layers@);
    let mut tree: Vec<LayerTreeNode<'a>> = Vec::new();
    let mut i: usize = 0;
    while i < layers.len()
        invariant
            v == layers_view(layers@),
            i <= layers@.len(),
            build_forest(v, i as nat) == Some(forest_view(tree@)),
        decreases layers@.len() - i,
    {
        assert(layers@[i as int]@ == v[i as int]);
        let node = match &layers[i] {
            AsepriteLayer::Group(g) => LayerTreeNode::Group(g, Vec::new()),
            AsepriteLayer::Normal(l) => LayerTreeNode::Normal(l),
        };
        assert(node_view(node) == fresh_node(v[i as int])) by {
            if node is Group {
                assert(forest_prefix_view(Seq::<LayerTreeNode>::empty(), 0) =~= Seq::<TreeView>::empty());
            }
        }
        let level = layers[i].child_level();
        if !insert_node(&mut tree, level, node) {
            proof {
                lemma_build_none_sticks(v, (i + 1) as nat, layers@.len());
                assert(first_misplaced(v, i as int));
            }
            return Err(AsepriteError::InvalidConfiguration(AsepriteInvalidError::InvalidLayer(i)));
        }
        i += 1;
    }
    Ok(tree)
}

proof fn lemma_build_none_sticks(layers: Seq<LayerView>, k: nat, n: nat)
    requires
        k <= n,
        build_forest(layers, k) is None,
    ensures
        build_forest(layers, n) is None,
    decreases n - k,
{
    if k < n {
        lemma_build_none_sticks(layers, k, (n - 1) as nat);
    }
}

impl Aseprite {
    /// The layer tree of the document.
    pub fn layer_tree(&self) -> (r: AseResult<Vec<LayerTreeNode>>)
        ensures
            r matches Ok(v) ==> build_forest(self@.layers, self@.layers.len()) == Some(forest_view(v@)),
            r is Err <==> build_forest(self@.layers, self@.layers.len()) is None,
    {
        build_layer_tree(self.layer_list())
    }
}

} // verus!
