//! The trait trees of the catalog: one per specialization, each with its
//! nodes in four categories and the order in which a loadout string lists them.

use vstd::prelude::*;

use crate::talent_encoding::chars_of;

verus! {

/// What a node offers: one entry, a choice among entries, or a sub-tree selector.
#[derive(Clone, Copy, Debug, PartialEq, Eq, Structural)]
pub enum TraitTreeNodeType {
    Single,
    Choice,
    SubTree,
}

/// The kind of effect an entry has; `SubTree` entries open a sub-tree.
#[derive(Clone, Copy, Debug, PartialEq, Eq, Structural)]
pub enum TraitTreeEntryType {
    Active,
    Passive,
    SubTree,
}

/// A type tag of the catalog that names no known type.
#[derive(Clone, Copy, Debug, PartialEq, Eq, Structural)]
pub struct UnknownTypeTag;

/// One effect that a node can resolve to.
#[derive(Debug, PartialEq, Eq)]
pub struct TraitTreeEntry {
    pub id: Option<usize>,
    pub definition_id: Option<usize>,
    pub max_ranks: Option<usize>,
    pub node_type: Option<TraitTreeEntryType>,
    pub name: Option<String>,
    pub spell_id: Option<usize>,
    pub index: Option<usize>,
    pub trait_sub_tree_id: Option<usize>,
}

/// A selectable position of a tree, with its entries in declaration order.
#[derive(Debug, PartialEq, Eq)]
pub struct TraitTreeNode {
    pub id: usize,
    pub pos_x: i32,
    pub pos_y: i32,
    pub max_ranks: Option<usize>,
    pub name: String,
    pub node_type: TraitTreeNodeType,
    pub entry_node: Option<bool>,
    pub next: Vec<usize>,
    pub prev: Vec<usize>,
    pub entries: Vec<TraitTreeEntry>,
    pub trait_sub_tree_id: Option<usize>,
}

/// The tree of one specialization.
#[derive(Debug, PartialEq, Eq)]
pub struct TraitTree {
    pub trait_tree_id: usize,
    pub class_id: usize,
    pub spec_id: usize,
    pub class_name: String,
    pub spec_name: String,
    pub class_nodes: Vec<TraitTreeNode>,
    pub spec_nodes: Vec<TraitTreeNode>,
    pub hero_nodes: Vec<TraitTreeNode>,
    pub sub_tree_nodes: Vec<TraitTreeNode>,
    pub full_node_order: Vec<usize>,
}

/// The value of an entry.
pub ghost struct TraitTreeEntryView {
    pub id: Option<usize>,
    pub definition_id: Option<usize>,
    pub max_ranks: Option<usize>,
    pub node_type: Option<TraitTreeEntryType>,
    pub name: Option<Seq<char>>,
    pub spell_id: Option<usize>,
    pub index: Option<usize>,
    pub trait_sub_tree_id: Option<usize>,
}

/// The value of a node.
pub ghost struct TraitTreeNodeView {
    pub id: usize,
    pub pos_x: i32,
    pub pos_y: i32,
    pub max_ranks: Option<usize>,
    pub name: Seq<char>,
    pub node_type: TraitTreeNodeType,
    pub entry_node: Option<bool>,
    pub next: Seq<usize>,
    pub prev: Seq<usize>,
    pub entries: Seq<TraitTreeEntryView>,
    pub trait_sub_tree_id: Option<usize>,
}

/// The value of a tree.
pub ghost struct TraitTreeView {
    pub trait_tree_id: usize,
    pub class_id: usize,
    pub spec_id: usize,
    pub class_name: Seq<char>,
    pub spec_name: Seq<char>,
    pub class_nodes: Seq<TraitTreeNodeView>,
    pub spec_nodes: Seq<TraitTreeNodeView>,
    pub hero_nodes: Seq<TraitTreeNodeView>,
    pub sub_tree_nodes: Seq<TraitTreeNodeView>,
    pub full_node_order: Seq<usize>,
}

pub open spec fn entry_views(entries: Seq<TraitTreeEntry>) -> Seq<TraitTreeEntryView> {
    entries.map_values(|e: TraitTreeEntry| e@)
}

pub open spec fn node_views(nodes: Seq<TraitTreeNode>) -> Seq<TraitTreeNodeView> {
    nodes.map_values(|n: TraitTreeNode| n@)
}

impl View for TraitTreeEntry {
    type V = TraitTreeEntryView;

    open spec fn view(&self) -> TraitTreeEntryView {
        TraitTreeEntryView {
            id: self.id,
            definition_id: self.definition_id,
            max_ranks: self.max_ranks,
            node_type: self.node_type,
            name: match self.name {
                Some(n) => Some(n@),
                None => None,
            },
            spell_id: self.spell_id,
            index: self.index,
            trait_sub_tree_id: self.trait_sub_tree_id,
        }
    }
}

impl View for TraitTreeNode {
    type V = TraitTreeNodeView;

    open spec fn view(&self) -> TraitTreeNodeView {
        TraitTreeNodeView {
            id: self.id,
            pos_x: self.pos_x,
            pos_y: self.pos_y,
            max_ranks: self.max_ranks,
            name: self.name@,
            node_type: self.node_type,
            entry_node: self.entry_node,
            next: self.next@,
            prev: self.prev@,
            entries: entry_views(self.entries@),
            trait_sub_tree_id: self.trait_sub_tree_id,
        }
    }
}

impl View for TraitTree {
    type V = TraitTreeView;

    open spec fn view(&self) -> TraitTreeView {
        TraitTreeView {
            trait_tree_id: self.trait_tree_id,
            class_id: self.class_id,
            spec_id: self.spec_id,
            class_name: self.class_name@,
            spec_name: self.spec_name@,
            class_nodes: node_views(self.class_nodes@),
            spec_nodes: node_views(self.spec_nodes@),
            hero_nodes: node_views(self.hero_nodes@),
            sub_tree_nodes: node_views(self.sub_tree_nodes@),
            full_node_order: self.full_node_order@,
        }
    }
}

/// The entry that stands in where a node has none: every field absent.
pub open spec fn default_entry_view() -> TraitTreeEntryView {
    TraitTreeEntryView {
        id: None,
        definition_id: None,
        max_ranks: None,
        node_type: None,
        name: None,
        spell_id: None,
        index: None,
        trait_sub_tree_id: None,
    }
}

/// The node that stands in for an id that the tree lacks: id 0, nothing else.
pub open spec fn default_node_view() -> TraitTreeNodeView {
    TraitTreeNodeView {
        id: 0,
        pos_x: 0,
        pos_y: 0,
        max_ranks: None,
        name: Seq::empty(),
        node_type: TraitTreeNodeType::Single,
        entry_node: None,
        next: Seq::empty(),
        prev: Seq::empty(),
        entries: Seq::empty(),
        trait_sub_tree_id: None,
    }
}

impl Default for TraitTreeEntry {
    fn default() -> (r: TraitTreeEntry)
        ensures
            r@ == default_entry_view(),
    {
        TraitTreeEntry {
            id: None,
            definition_id: None,
            max_ranks: None,
            node_type: None,
            name: None,
            spell_id: None,
            index: None,
            trait_sub_tree_id: None,
        }
    }
}

impl Default for TraitTreeNode {
    fn default() -> (r: TraitTreeNode)
        ensures
            r@ == default_node_view(),
    {
        let r = TraitTreeNode {
            id: 0,
            pos_x: 0,
            pos_y: 0,
            max_ranks: None,
            name: String::new(),
            node_type: TraitTreeNodeType::Single,
            entry_node: None,
            next: Vec::new(),
            prev: Vec::new(),
            entries: Vec::new(),
            trait_sub_tree_id: None,
        };
        assert(entry_views(r.entries@) == Seq::<TraitTreeEntryView>::empty());
        r
    }
}

fn clone_ids(ids: &Vec<usize>) -> (r: Vec<usize>)
    ensures
        r@ == ids@,
{
    let mut r: Vec<usize> = Vec::new();
    let mut i: usize = 0;
    while i < ids.len()
        invariant
            i <= ids@.len(),
            r@ == ids@.subrange(0, i as int),
        decreases ids@.len() - i,
    {
        r.push(ids[i]);
        i += 1;
    }
    assert(r@ == ids@);
    r
}

fn clone_entries(entries: &Vec<TraitTreeEntry>) -> (r: Vec<TraitTreeEntry>)
    ensures
        entry_views(r@) == entry_views(entries@),
{
    let mut r: Vec<TraitTreeEntry> = Vec::new();
    let mut i: usize = 0;
    while i < entries.len()
        invariant
            i <= entries@.len(),
            r@.len() == i,
            forall|j: int| 0 <= j < i ==> r@[j]@ == entries@[j]@,
        decreases entries@.len() - i,
    {
        let e = entries[i].clone();
        r.push(e);
        i += 1;
    }
    assert(entry_views(r@) =~= entry_views(entries@));
    r
}

/// Copies of `nodes`, equal in value.
fn clone_nodes(nodes: &Vec<TraitTreeNode>) -> (r: Vec<TraitTreeNode>)
    ensures
        node_views(r@) == node_views(nodes@),
{
    let mut r: Vec<TraitTreeNode> = Vec::new();
    let mut i: usize = 0;
    while i < nodes.len()
        invariant
            i <= nodes@.len(),
            r@.len() == i,
            forall|j: int| 0 <= j < i ==> r@[j]@ == nodes@[j]@,
        decreases nodes@.len() - i,
    {
        let n = nodes[i].clone();
        r.push(n);
        i += 1;
    }
    assert(node_views(r@) =~= node_views(nodes@));
    r
}

impl Clone for TraitTreeEntry {
    fn clone(&self) -> (r: TraitTreeEntry)
        ensures
            r@ == self@,
    {
        let name = match &self.name {
            Some(n) => Some(n.clone()),
            None => None,
        };
        TraitTreeEntry {
            id: self.id,
            definition_id: self.definition_id,
            max_ranks: self.max_ranks,
            node_type: self.node_type,
            name,
            spell_id: self.spell_id,
            index: self.index,
            trait_sub_tree_id: self.trait_sub_tree_id,
        }
    }
}

impl Clone for TraitTreeNode {
    fn clone(&self) -> (r: TraitTreeNode)
        ensures
            r@ == self@,
    {
        TraitTreeNode {
            id: self.id,
            pos_x: self.pos_x,
            pos_y: self.pos_y,
            max_ranks: self.max_ranks,
            name: self.name.clone(),
            node_type: self.node_type,
            entry_node: self.entry_node,
            next: clone_ids(&self.next),
            prev: clone_ids(&self.prev),
            entries: clone_entries(&self.entries),
            trait_sub_tree_id: self.trait_sub_tree_id,
        }
    }
}

impl Clone for TraitTree {
    fn clone(&self) -> (r: TraitTree)
        ensures
            r@ == self@,
    {
        TraitTree {
            trait_tree_id: self.trait_tree_id,
            class_id: self.class_id,
            spec_id: self.spec_id,
            class_name: self.class_name.clone(),
            spec_name: self.spec_name.clone(),
            class_nodes: clone_nodes(&self.class_nodes),
            spec_nodes: clone_nodes(&self.spec_nodes),
            hero_nodes: clone_nodes(&self.hero_nodes),
            sub_tree_nodes: clone_nodes(&self.sub_tree_nodes),
            full_node_order: clone_ids(&self.full_node_order),
        }
    }
}

/// `a` and `b` hold the same characters.
fn same_text(a: &str, b: &str) -> (r: bool)
    ensures
        r == (a@ == b@),
{
    let x = chars_of(a);
    let y = chars_of(b);
    if x.len() != y.len() {
        return false;
    }
    let mut i: usize = 0;
    while i < x.len()
        invariant
            x@ == a@,
            y@ == b@,
            x@.len() == y@.len(),
            i <= x@.len(),
            forall|j: int| 0 <= j < i ==> x@[j] == y@[j],
        decreases x@.len() - i,
    {
        if x[i] != y[i] {
            return false;
        }
        i += 1;
    }
    assert(x@ == y@);
    true
}

impl TraitTreeNodeType {
    /// The node type that a catalog tag names.
    pub open spec fn tag_meaning(tag: Seq<char>) -> Result<TraitTreeNodeType, UnknownTypeTag> {
        if tag == "single"@ {
            Ok(TraitTreeNodeType::Single)
        } else if tag == "choice"@ {
            Ok(TraitTreeNodeType::Choice)
        } else if tag == "subtree"@ {
            Ok(TraitTreeNodeType::SubTree)
        } else {
            Err(UnknownTypeTag)
        }
    }

    /// Reads a catalog tag: `single`, `choice` or `subtree`.
    pub fn from_tag(tag: &str) -> (r: Result<TraitTreeNodeType, UnknownTypeTag>)
        ensures
            r == Self::tag_meaning(tag@),
    {
        if same_text(tag, "single") {
            Ok(TraitTreeNodeType::Single)
        } else if same_text(tag, "choice") {
            Ok(TraitTreeNodeType::Choice)
        } else if same_text(tag, "subtree") {
            Ok(TraitTreeNodeType::SubTree)
        } else {
            Err(UnknownTypeTag)
        }
    }
}

impl TraitTreeEntryType {
    /// The entry type that a catalog tag names; the empty tag names none.
    pub open spec fn tag_meaning(tag: Seq<char>) -> Result<Option<TraitTreeEntryType>, UnknownTypeTag> {
        if tag == "active"@ {
            Ok(Some(TraitTreeEntryType::Active))
        } else if tag == "passive"@ {
            Ok(Some(TraitTreeEntryType::Passive))
        } else if tag == "subtree"@ {
            Ok(Some(TraitTreeEntryType::SubTree))
        } else if tag.len() == 0 {
            Ok(None)
        } else {
            Err(UnknownTypeTag)
        }
    }

    /// Reads a catalog tag: `active`, `passive`, `subtree`, or empty for none.
    pub fn from_tag(tag: &str) -> (r: Result<Option<TraitTreeEntryType>, UnknownTypeTag>)
        ensures
            r == Self::tag_meaning(tag@),
    {
        if same_text(tag, "active") {
            Ok(Some(TraitTreeEntryType::Active))
        } else if same_text(tag, "passive") {
            Ok(Some(TraitTreeEntryType::Passive))
        } else if same_text(tag, "subtree") {
            Ok(Some(TraitTreeEntryType::SubTree))
        } else if tag.unicode_len() == 0 {
            Ok(None)
        } else {
            Err(UnknownTypeTag)
        }
    }
}

} // verus!
