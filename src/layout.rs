//! Where a renderer places the talents of a decoded loadout: which ones are
//! drawn, and their scaled coordinates, with hero talents moved next to the
//! class and specialization trees.

use vstd::prelude::*;

use crate::talent_configuration::{contains_id, TalentConfiguration, TalentEntry};
use crate::trait_tree::{node_views, TraitTreeNode, TraitTreeNodeType, TraitTreeNodeView};

verus! {

/// Coordinates of the catalog are divided by this for drawing.
pub const SCALE_FACTOR: i64 = 15;

/// Rust's integer division, which rounds toward zero.
pub open spec fn trunc_div(a: int, d: int) -> int {
    if a >= 0 {
        a / d
    } else {
        -((-a) / d)
    }
}

/// The larger (or smaller) of `a` and `b`.
pub open spec fn pick(a: int, b: int, want_max: bool) -> int {
    if want_max {
        if a >= b { a } else { b }
    } else {
        if a <= b { a } else { b }
    }
}

/// The largest (or smallest) of a non-empty sequence.
pub open spec fn extreme(s: Seq<int>, want_max: bool) -> int
    decreases s.len(),
{
    if s.len() <= 1 {
        s[0]
    } else {
        pick(extreme(s.drop_last(), want_max), s.last(), want_max)
    }
}

/// The largest (or smallest) of `s`, or `default` where `s` is empty.
pub open spec fn extreme_or(s: Seq<int>, want_max: bool, default: int) -> int {
    if s.len() == 0 {
        default
    } else {
        extreme(s, want_max)
    }
}

/// The x (or y) coordinates of `nodes`.
pub open spec fn coordinates(nodes: Seq<TraitTreeNodeView>, use_x: bool) -> Seq<int> {
    nodes.map_values(|n: TraitTreeNodeView| if use_x { n.pos_x as int } else { n.pos_y as int })
}

/// The first hero node that is the entry of an active sub-tree; a node
/// without a sub-tree id counts as one of sub-tree 0.
pub open spec fn hero_root(hero: Seq<TraitTreeNodeView>, subtrees: Seq<usize>) -> Option<TraitTreeNodeView>
    decreases hero.len(),
{
    if hero.len() == 0 {
        None
    } else if hero[0].entry_node == Some(true) && subtrees.contains(
        match hero[0].trait_sub_tree_id {
            Some(id) => id,
            None => 0,
        },
    ) {
        Some(hero[0])
    } else {
        hero_root(hero.drop_first(), subtrees)
    }
}

/// The offset that moves hero talents between the class and specialization
/// trees: the gap's midpoint less the root's x, and the class tree's vertical
/// middle less a quarter of the hero tree's height less the root's y. `None`
/// where no active sub-tree has its entry node among the hero nodes.
pub open spec fn hero_offset(c: &TalentConfiguration) -> Option<(int, int)> {
    let t = c.trait_tree@;
    match hero_root(t.hero_nodes, c.subtrees@) {
        None => None,
        Some(root) => {
            let class_x_max = extreme_or(coordinates(t.class_nodes, true), true, 0);
            let spec_x_min = extreme_or(coordinates(t.spec_nodes, true), false, 100);
            let class_y_min = extreme_or(coordinates(t.class_nodes, false), false, 0);
            let class_y_max = extreme_or(coordinates(t.class_nodes, false), true, 100);
            let hero_y_min = extreme_or(coordinates(t.hero_nodes, false), false, 0);
            let hero_y_max = extreme_or(coordinates(t.hero_nodes, false), true, 100);
            Some(
                (
                    trunc_div(class_x_max + spec_x_min, 2) - root.pos_x,
                    trunc_div(class_y_min + class_y_max, 2) - trunc_div(hero_y_max - hero_y_min, 4)
                        - root.pos_y,
                ),
            )
        },
    }
}

/// A talent is drawn unless it is a placeholder (id 0), a sub-tree selector,
/// or part of a sub-tree that the loadout does not open.
pub open spec fn is_drawn(c: &TalentConfiguration, n: TraitTreeNodeView) -> bool {
    &&& n.id != 0
    &&& n.node_type != TraitTreeNodeType::SubTree
    &&& match n.trait_sub_tree_id {
        Some(id) => c.subtrees@.contains(id),
        None => true,
    }
}

/// Where talent `n` is drawn: its position, moved by `hero_offset` where it
/// belongs to a sub-tree, then scaled. `None` where it needs an offset that
/// the loadout does not give.
pub open spec fn drawn_position(c: &TalentConfiguration, n: TraitTreeNodeView) -> Option<(int, int)> {
    match n.trait_sub_tree_id {
        None => Some((trunc_div(n.pos_x as int, SCALE_FACTOR as int), trunc_div(n.pos_y as int, SCALE_FACTOR as int))),
        Some(_) => match hero_offset(c) {
            None => None,
            Some((dx, dy)) => Some(
                (
                    trunc_div(n.pos_x + dx, SCALE_FACTOR as int),
                    trunc_div(n.pos_y + dy, SCALE_FACTOR as int),
                ),
            ),
        },
    }
}

/// Division rounding toward zero.
fn div_toward_zero(a: i64, d: i64) -> (r: i64)
    requires
        d >= 2,
    ensures
        r == trunc_div(a as int, d as int),
{
    if a >= 0 {
        ((a as u64) / (d as u64)) as i64
    } else {
        let m = (0i128 - a as i128) as u64;
        let q = m / (d as u64);
        assert(q <= m / 2) by (nonlinear_arith)
            requires
                q == m / (d as u64),
                d >= 2,
        ;
        0i64 - (q as i64)
    }
}

/// The largest (or smallest) x (or y) coordinate of `nodes`, or `default`.
fn coordinate_extreme(nodes: &Vec<TraitTreeNode>, use_x: bool, want_max: bool, default: i64) -> (r: i64)
    ensures
        r == extreme_or(coordinates(node_views(nodes@), use_x), want_max, default as int),
{
    let ghost s = coordinates(node_views(nodes@), use_x);
    if nodes.len() == 0 {
        return default;
    }
    let mut acc: i64 = if use_x { nodes[0].pos_x as i64 } else { nodes[0].pos_y as i64 };
    assert(s.subrange(0, 1).len() == 1);
    let mut i: usize = 1;
    while i < nodes.len()
        invariant
            s == coordinates(node_views(nodes@), use_x),
            1 <= i <= nodes@.len(),
            acc == extreme(s.subrange(0, i as int), want_max),
            i32::MIN <= acc <= i32::MAX,
        decreases nodes@.len() - i,
    {
        let v: i64 = if use_x { nodes[i].pos_x as i64 } else { nodes[i].pos_y as i64 };
        assert(s.subrange(0, i + 1).drop_last() == s.subrange(0, i as int));
        if want_max {
            if v > acc {
                acc = v;
            }
        } else {
            if v < acc {
                acc = v;
            }
        }
        i += 1;
    }
    assert(s.subrange(0, i as int) == s);
    acc
}

proof fn lemma_extreme_in_range(s: Seq<int>, want_max: bool)
    requires
        s.len() > 0,
        forall|i: int| 0 <= i < s.len() ==> i32::MIN <= #[trigger] s[i] <= i32::MAX,
    ensures
        i32::MIN <= extreme(s, want_max) <= i32::MAX,
    decreases s.len(),
{
    if s.len() > 1 {
        lemma_extreme_in_range(s.drop_last(), want_max);
    }
}

impl TalentConfiguration {
    /// The talent is drawn.
    pub fn do_draw(&self, node: &TalentEntry) -> (r: bool)
        ensures
            r == is_drawn(self, node.trait_tree_node@),
    {
        let n = &node.trait_tree_node;
        if n.id == 0 {
            return false;
        }
        if n.node_type == TraitTreeNodeType::SubTree {
            return false;
        }
        match n.trait_sub_tree_id {
            Some(id) => contains_id(&self.subtrees, id),
            None => true,
        }
    }

    /// The offset of hero talents, or `None` where no active sub-tree has its
    /// entry node among the hero nodes.
    pub fn compute_hero_talent_normalization(&self) -> (r: Option<(i64, i64)>)
        ensures
            match hero_offset(self) {
                Some((dx, dy)) => r == Some((dx as i64, dy as i64)) && dx == dx as i64 && dy == dy as i64,
                None => r is None,
            },
            r matches Some((dx, dy)) ==> -0x4_0000_0000 <= dx <= 0x4_0000_0000 && -0x4_0000_0000 <= dy
                <= 0x4_0000_0000,
    {
        let root = match find_hero_root(&self.trait_tree.hero_nodes, &self.subtrees) {
            Some(i) => &self.trait_tree.hero_nodes[i],
            None => return None,
        };
        let class_x_max = coordinate_extreme(&self.trait_tree.class_nodes, true, true, 0);
        let spec_x_min = coordinate_extreme(&self.trait_tree.spec_nodes, true, false, 100);
        let class_y_min = coordinate_extreme(&self.trait_tree.class_nodes, false, false, 0);
        let class_y_max = coordinate_extreme(&self.trait_tree.class_nodes, false, true, 100);
        let hero_y_min = coordinate_extreme(&self.trait_tree.hero_nodes, false, false, 0);
        let hero_y_max = coordinate_extreme(&self.trait_tree.hero_nodes, false, true, 100);
        proof {
            let t = self.trait_tree@;
            lemma_coordinates_in_range(t.class_nodes, true);
            lemma_coordinates_in_range(t.class_nodes, false);
            lemma_coordinates_in_range(t.spec_nodes, true);
            lemma_coordinates_in_range(t.hero_nodes, false);
            if t.class_nodes.len() > 0 {
                lemma_extreme_in_range(coordinates(t.class_nodes, true), true);
                lemma_extreme_in_range(coordinates(t.class_nodes, false), false);
                lemma_extreme_in_range(coordinates(t.class_nodes, false), true);
            }
            if t.spec_nodes.len() > 0 {
                lemma_extreme_in_range(coordinates(t.spec_nodes, true), false);
            }
            if t.hero_nodes.len() > 0 {
                lemma_extreme_in_range(coordinates(t.hero_nodes, false), false);
                lemma_extreme_in_range(coordinates(t.hero_nodes, false), true);
            }
        }
        let dx = div_toward_zero(class_x_max + spec_x_min, 2) - root.pos_x as i64;
        let dy = div_toward_zero(class_y_min + class_y_max, 2) - div_toward_zero(hero_y_max - hero_y_min, 4)
            - root.pos_y as i64;
        Some((dx, dy))
    }

    /// Where a talent is drawn, or `None` where it belongs to a sub-tree and
    /// the hero offset cannot be had.
    pub fn coordinate_transformation(&self, entry: &TalentEntry) -> (r: Option<(i64, i64)>)
        ensures
            match drawn_position(self, entry.trait_tree_node@) {
                Some((x, y)) => r == Some((x as i64, y as i64)) && x == x as i64 && y == y as i64,
                None => r is None,
            },
    {
        let n = &entry.trait_tree_node;
        match n.trait_sub_tree_id {
            None => Some((div_toward_zero(n.pos_x as i64, SCALE_FACTOR), div_toward_zero(n.pos_y as i64, SCALE_FACTOR))),
            Some(_) => match self.compute_hero_talent_normalization() {
                None => None,
                Some((dx, dy)) => {
                    Some(
                        (
                            div_toward_zero(n.pos_x as i64 + dx, SCALE_FACTOR),
                            div_toward_zero(n.pos_y as i64 + dy, SCALE_FACTOR),
                        ),
                    )
                },
            },
        }
    }
}

proof fn lemma_coordinates_in_range(nodes: Seq<TraitTreeNodeView>, use_x: bool)
    ensures
        forall|i: int| 0 <= i < nodes.len() ==> i32::MIN <= #[trigger] coordinates(nodes, use_x)[i] <= i32::MAX,
{
}

/// The position in `hero` of the node that `hero_root` picks.
fn find_hero_root(hero: &Vec<TraitTreeNode>, subtrees: &Vec<usize>) -> (r: Option<usize>)
    ensures
        match r {
            Some(i) => i < hero@.len() && hero_root(node_views(hero@), subtrees@) == Some(hero@[i as int]@),
            None => hero_root(node_views(hero@), subtrees@) is None,
        },
{
    let ghost views = node_views(hero@);
    assert(views.subrange(0, views.len() as int) == views);
    let mut i: usize = 0;
    while i < hero.len()
        invariant
            views == node_views(hero@),
            i <= hero@.len(),
            hero_root(views, subtrees@) == hero_root(views.subrange(i as int, views.len() as int), subtrees@),
        decreases hero@.len() - i,
    {
        let ghost rest = views.subrange(i as int, views.len() as int);
        assert(rest[0] == hero@[i as int]@);
        let n = &hero[i];
        let is_entry = match n.entry_node {
            Some(b) => b,
            None => false,
        };
        let sub = match n.trait_sub_tree_id {
            Some(id) => id,
            None => 0,
        };
        if is_entry && contains_id(subtrees, sub) {
            return Some(i);
        }
        assert(rest.drop_first() == views.subrange(i + 1, views.len() as int));
        i += 1;
    }
    assert(views.subrange(i as int, views.len() as int).len() == 0);
    None
}

} // verus!
