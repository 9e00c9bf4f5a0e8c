//! Decoding a loadout string into the talents it selects: the header, then one
//! unit per id of the tree's node order.

use vstd::prelude::*;
use vstd::string::*;

use crate::bit_reader::{bits_value, read_field, BitStreamReader};
use crate::talent_encoding::{in_alphabet, symbols_of, TalentEncoding, TalentEncodingError};
use crate::trait_tree::{
    default_entry_view, default_node_view, node_views, TraitTree, TraitTreeEntry,
    TraitTreeEntryType, TraitTreeEntryView, TraitTreeNode, TraitTreeNodeView, TraitTreeView,
};

verus! {

/// Why a loadout string could not be decoded.
#[derive(Clone, Copy, Debug, PartialEq, Eq, Structural)]
pub enum TalentConfigurationError {
    TalentEncodingError(TalentEncodingError),
    SpecNotFound,
    InsufficientBits,
    ChoiceIndexOutOfRange,
    SubTreeMissingId,
}

/// A node resolved to one of its entries, with the points invested in it.
#[derive(Debug, PartialEq, Eq)]
pub struct TalentEntry {
    pub rank: u64,
    pub trait_tree_node: TraitTreeNode,
    pub trait_tree_entry: TraitTreeEntry,
}

/// A decoded loadout: the talents of the matched tree, split by selection,
/// and the sub-trees that the selection opens.
#[derive(Debug, PartialEq, Eq)]
pub struct TalentConfiguration {
    pub string: String,
    pub spec: usize,
    pub selected_talents: Vec<TalentEntry>,
    pub unselected_talents: Vec<TalentEntry>,
    pub all_talents: Vec<TalentEntry>,
    pub subtrees: Vec<usize>,
    pub trait_tree: TraitTree,
}

/// Where a decoded unit is listed besides the list of all talents.
#[derive(Clone, Copy, Debug, PartialEq, Eq, Structural)]
pub enum Placement {
    Selected,
    Unselected,
    /// A sub-tree selector, or an id that the tree has no node for.
    Hidden,
}

/// One decoded unit of the node order.
#[derive(Debug, PartialEq, Eq)]
pub struct DecodedNode {
    pub talent: TalentEntry,
    pub placement: Placement,
    pub opened_subtree: Option<usize>,
}

/// The value of a talent.
pub ghost struct TalentEntryView {
    pub rank: nat,
    pub node: TraitTreeNodeView,
    pub entry: TraitTreeEntryView,
}

/// The value of a decoded loadout.
pub ghost struct TalentConfigurationView {
    pub string: Seq<char>,
    pub spec: usize,
    pub selected: Seq<TalentEntryView>,
    pub unselected: Seq<TalentEntryView>,
    pub all: Seq<TalentEntryView>,
    pub subtrees: Seq<usize>,
    pub trait_tree: TraitTreeView,
}

/// What one unit of the node order decodes to.
pub ghost struct NodeOutcome {
    pub talent: TalentEntryView,
    pub placement: Placement,
    pub opened_subtree: Option<usize>,
    /// The stream position after the unit.
    pub next: nat,
}

/// The talents decoded so far, and the stream position after them.
pub ghost struct DecodeState {
    pub pos: nat,
    pub selected: Seq<TalentEntryView>,
    pub unselected: Seq<TalentEntryView>,
    pub all: Seq<TalentEntryView>,
    pub subtrees: Seq<usize>,
}

pub open spec fn talent_views(talents: Seq<TalentEntry>) -> Seq<TalentEntryView> {
    talents.map_values(|t: TalentEntry| t@)
}

pub open spec fn tree_views(trees: Seq<TraitTree>) -> Seq<TraitTreeView> {
    trees.map_values(|t: TraitTree| t@)
}

impl View for TalentEntry {
    type V = TalentEntryView;

    open spec fn view(&self) -> TalentEntryView {
        TalentEntryView {
            rank: self.rank as nat,
            node: self.trait_tree_node@,
            entry: self.trait_tree_entry@,
        }
    }
}

impl View for TalentConfiguration {
    type V = TalentConfigurationView;

    open spec fn view(&self) -> TalentConfigurationView {
        TalentConfigurationView {
            string: self.string@,
            spec: self.spec,
            selected: talent_views(self.selected_talents@),
            unselected: talent_views(self.unselected_talents@),
            all: talent_views(self.all_talents@),
            subtrees: self.subtrees@,
            trait_tree: self.trait_tree@,
        }
    }
}

/// The nodes of a tree: class, specialization, hero and sub-tree nodes, in that order.
pub open spec fn tree_nodes(t: TraitTreeView) -> Seq<TraitTreeNodeView> {
    t.class_nodes + t.spec_nodes + t.hero_nodes + t.sub_tree_nodes
}

/// The first of `nodes` with id `id`.
pub open spec fn node_with_id(nodes: Seq<TraitTreeNodeView>, id: usize) -> Option<TraitTreeNodeView>
    decreases nodes.len(),
{
    if nodes.len() == 0 {
        None
    } else if nodes[0].id == id {
        Some(nodes[0])
    } else {
        node_with_id(nodes.drop_first(), id)
    }
}

/// The first tree of `catalog` for specialization `spec`.
pub open spec fn tree_for_spec(catalog: Seq<TraitTreeView>, spec: nat) -> Option<TraitTreeView>
    decreases catalog.len(),
{
    if catalog.len() == 0 {
        None
    } else if catalog[0].spec_id == spec {
        Some(catalog[0])
    } else {
        tree_for_spec(catalog.drop_first(), spec)
    }
}

/// The entry a node resolves to unless a choice says otherwise: its first,
/// or the empty entry where it declares none.
pub open spec fn first_entry(n: TraitTreeNodeView) -> TraitTreeEntryView {
    if n.entries.len() > 0 {
        n.entries[0]
    } else {
        default_entry_view()
    }
}

/// The rank of a selected node without a partial rank: its maximum, or 1.
pub open spec fn full_rank(n: TraitTreeNodeView) -> nat {
    match n.max_ranks {
        Some(m) => m as nat,
        None => 1,
    }
}

/// The optional partial rank at `pos`: a flag bit, then where it is 1 a rank
/// field of `rank_bits` bits. Gives the rank and the position after it.
pub open spec fn decode_rank(
    bits: Seq<usize>,
    b: nat,
    rank_bits: nat,
    pos: nat,
    rank: nat,
) -> Result<(nat, nat), TalentConfigurationError> {
    match read_field(bits, b, pos, 1) {
        None => Err(TalentConfigurationError::InsufficientBits),
        Some((flag, p)) => if flag == 1 {
            match read_field(bits, b, p, rank_bits) {
                None => Err(TalentConfigurationError::InsufficientBits),
                Some((r, q)) => Ok((r, q)),
            }
        } else {
            Ok((rank, p))
        },
    }
}

/// The optional choice at `pos`: a flag bit, then where it is 1 an index of
/// `choice_bits` bits into the node's entries. Gives the entry, the sub-tree
/// it opens, and the position after it.
pub open spec fn decode_choice(
    bits: Seq<usize>,
    b: nat,
    choice_bits: nat,
    pos: nat,
    n: TraitTreeNodeView,
) -> Result<(TraitTreeEntryView, Option<usize>, nat), TalentConfigurationError> {
    match read_field(bits, b, pos, 1) {
        None => Err(TalentConfigurationError::InsufficientBits),
        Some((flag, p)) => if flag == 1 {
            match read_field(bits, b, p, choice_bits) {
                None => Err(TalentConfigurationError::InsufficientBits),
                Some((index, q)) => if index >= n.entries.len() {
                    Err(TalentConfigurationError::ChoiceIndexOutOfRange)
                } else {
                    let e = n.entries[index as int];
                    if e.node_type == Some(TraitTreeEntryType::SubTree) {
                        match e.trait_sub_tree_id {
                            None => Err(TalentConfigurationError::SubTreeMissingId),
                            Some(id) => Ok((e, Some(id), q)),
                        }
                    } else {
                        Ok((e, None, q))
                    }
                },
            }
        } else {
            Ok((first_entry(n), None, p))
        },
    }
}

/// One unit of the node order at `pos`. For an id without a node: one bit,
/// whatever its value, and a hidden placeholder. For a node: the start bit;
/// where it is 1, the modifiers bit, and where that is 1, the partial rank and
/// the choice.
pub open spec fn unit_outcome(
    bits: Seq<usize>,
    b: nat,
    rank_bits: nat,
    choice_bits: nat,
    pos: nat,
    node: Option<TraitTreeNodeView>,
) -> Result<NodeOutcome, TalentConfigurationError> {
    match read_field(bits, b, pos, 1) {
        None => Err(TalentConfigurationError::InsufficientBits),
        Some((start, p1)) => match node {
            None => Ok(
                NodeOutcome {
                    talent: TalentEntryView { rank: 0, node: default_node_view(), entry: default_entry_view() },
                    placement: Placement::Hidden,
                    opened_subtree: None,
                    next: p1,
                },
            ),
            Some(n) => if start == 0 {
                Ok(
                    NodeOutcome {
                        talent: TalentEntryView { rank: 0, node: n, entry: first_entry(n) },
                        placement: Placement::Unselected,
                        opened_subtree: None,
                        next: p1,
                    },
                )
            } else {
                let placement = if first_entry(n).node_type == Some(TraitTreeEntryType::SubTree) {
                    Placement::Hidden
                } else {
                    Placement::Selected
                };
                match read_field(bits, b, p1, 1) {
                    None => Err(TalentConfigurationError::InsufficientBits),
                    Some((modifiers, p2)) => if modifiers == 0 {
                        Ok(
                            NodeOutcome {
                                talent: TalentEntryView { rank: full_rank(n), node: n, entry: first_entry(n) },
                                placement,
                                opened_subtree: None,
                                next: p2,
                            },
                        )
                    } else {
                        match decode_rank(bits, b, rank_bits, p2, full_rank(n)) {
                            Err(e) => Err(e),
                            Ok((rank, p3)) => match decode_choice(bits, b, choice_bits, p3, n) {
                                Err(e) => Err(e),
                                Ok((entry, opened, p4)) => Ok(
                                    NodeOutcome {
                                        talent: TalentEntryView { rank, node: n, entry },
                                        placement,
                                        opened_subtree: opened,
                                        next: p4,
                                    },
                                ),
                            },
                        }
                    },
                }
            },
        },
    }
}

/// The state after a unit: the talent listed where it belongs, and the sub-tree
/// it opens added unless it is there already.
pub open spec fn apply_outcome(st: DecodeState, o: NodeOutcome) -> DecodeState {
    DecodeState {
        pos: o.next,
        selected: if o.placement == Placement::Selected {
            st.selected.push(o.talent)
        } else {
            st.selected
        },
        unselected: if o.placement == Placement::Unselected {
            st.unselected.push(o.talent)
        } else {
            st.unselected
        },
        all: st.all.push(o.talent),
        subtrees: match o.opened_subtree {
            Some(id) => if st.subtrees.contains(id) {
                st.subtrees
            } else {
                st.subtrees.push(id)
            },
            None => st.subtrees,
        },
    }
}

/// Nothing decoded yet, at stream position `pos`.
pub open spec fn initial_state(pos: nat) -> DecodeState {
    DecodeState {
        pos,
        selected: Seq::empty(),
        unselected: Seq::empty(),
        all: Seq::empty(),
        subtrees: Seq::empty(),
    }
}

/// The units of `order`, one after another from `start`; the first error stops.
pub open spec fn decode_units(
    bits: Seq<usize>,
    b: nat,
    rank_bits: nat,
    choice_bits: nat,
    nodes: Seq<TraitTreeNodeView>,
    order: Seq<usize>,
    start: nat,
) -> Result<DecodeState, TalentConfigurationError>
    decreases order.len(),
{
    if order.len() == 0 {
        Ok(initial_state(start))
    } else {
        match decode_units(bits, b, rank_bits, choice_bits, nodes, order.drop_last(), start) {
            Err(e) => Err(e),
            Ok(st) => match unit_outcome(
                bits,
                b,
                rank_bits,
                choice_bits,
                st.pos,
                node_with_id(nodes, order.last()),
            ) {
                Err(e) => Err(e),
                Ok(o) => Ok(apply_outcome(st, o)),
            },
        }
    }
}

/// The decoded loadout of string `s`: charset and length checks first, then
/// the header (version, specialization, tree field), the version check, the
/// tree of that specialization, and the units of its node order.
pub open spec fn decode_loadout(
    s: Seq<char>,
    config: TalentEncoding,
    catalog: Seq<TraitTreeView>,
) -> Result<TalentConfigurationView, TalentConfigurationError> {
    if !in_alphabet(config.base64_chars@, s) {
        Err(TalentConfigurationError::TalentEncodingError(TalentEncodingError::InvalidBase64Charset))
    } else if !config.fits_header(s.len() as int) {
        Err(TalentConfigurationError::TalentEncodingError(TalentEncodingError::StringTooShort))
    } else {
        let bits = symbols_of(config.base64_chars@, s);
        let b = config.byte_size as nat;
        let version = bits_value(bits, b, 0, config.version_bits as nat);
        let spec = bits_value(bits, b, config.version_bits as nat, config.spec_bits as nat);
        if version != config.serialization_version {
            Err(
                TalentConfigurationError::TalentEncodingError(
                    TalentEncodingError::IncorrectSerializationVersion,
                ),
            )
        } else {
            match tree_for_spec(catalog, spec) {
                None => Err(TalentConfigurationError::SpecNotFound),
                Some(t) => match decode_units(
                    bits,
                    b,
                    config.rank_bits as nat,
                    config.choice_bits as nat,
                    tree_nodes(t),
                    t.full_node_order,
                    config.header_bits() as nat,
                ) {
                    Err(e) => Err(e),
                    Ok(st) => Ok(
                        TalentConfigurationView {
                            string: s,
                            spec: t.spec_id,
                            selected: st.selected,
                            unselected: st.unselected,
                            all: st.all,
                            subtrees: st.subtrees,
                            trait_tree: t,
                        },
                    ),
                },
            }
        }
    }
}

impl View for DecodedNode {
    type V = (TalentEntryView, Placement, Option<usize>);

    open spec fn view(&self) -> (TalentEntryView, Placement, Option<usize>) {
        (self.talent@, self.placement, self.opened_subtree)
    }
}

pub open spec fn node_view_of(node: Option<&TraitTreeNode>) -> Option<TraitTreeNodeView> {
    match node {
        Some(n) => Some(n@),
        None => None,
    }
}

proof fn lemma_node_with_id_append(a: Seq<TraitTreeNodeView>, b: Seq<TraitTreeNodeView>, id: usize)
    ensures
        node_with_id(a + b, id) == match node_with_id(a, id) {
            Some(n) => Some(n),
            None => node_with_id(b, id),
        },
    decreases a.len(),
{
    if a.len() == 0 {
        assert(a + b == b);
    } else {
        assert((a + b)[0] == a[0]);
        assert((a + b).drop_first() == a.drop_first() + b);
        lemma_node_with_id_append(a.drop_first(), b, id);
    }
}

/// The position in `nodes` of the first node with id `id`.
fn find_node(nodes: &Vec<TraitTreeNode>, id: usize) -> (r: Option<usize>)
    ensures
        match r {
            Some(i) => i < nodes@.len() && node_with_id(node_views(nodes@), id) == Some(nodes@[i as int]@),
            None => node_with_id(node_views(nodes@), id) is None,
        },
{
    let ghost views = node_views(nodes@);
    assert(views.subrange(0, views.len() as int) == views);
    let mut i: usize = 0;
    while i < nodes.len()
        invariant
            views == node_views(nodes@),
            i <= nodes@.len(),
            node_with_id(views, id) == node_with_id(views.subrange(i as int, views.len() as int), id),
        decreases nodes@.len() - i,
    {
        let ghost rest = views.subrange(i as int, views.len() as int);
        assert(rest[0] == nodes@[i as int]@);
        if nodes[i].id == id {
            return Some(i);
        }
        assert(rest.drop_first() == views.subrange(i + 1, views.len() as int));
        i += 1;
    }
    assert(views.subrange(i as int, views.len() as int).len() == 0);
    None
}

/// The first node of `tree` with id `id`, searching class, specialization,
/// hero and sub-tree nodes in that order.
pub fn lookup_node(tree: &TraitTree, id: usize) -> (r: Option<&TraitTreeNode>)
    ensures
        node_view_of(r) == node_with_id(tree_nodes(tree@), id),
{
    let ghost t = tree@;
    proof {
        lemma_node_with_id_append(t.class_nodes + t.spec_nodes + t.hero_nodes, t.sub_tree_nodes, id);
        lemma_node_with_id_append(t.class_nodes + t.spec_nodes, t.hero_nodes, id);
        lemma_node_with_id_append(t.class_nodes, t.spec_nodes, id);
    }
    if let Some(i) = find_node(&tree.class_nodes, id) {
        return Some(&tree.class_nodes[i]);
    }
    if let Some(i) = find_node(&tree.spec_nodes, id) {
        return Some(&tree.spec_nodes[i]);
    }
    if let Some(i) = find_node(&tree.hero_nodes, id) {
        return Some(&tree.hero_nodes[i]);
    }
    if let Some(i) = find_node(&tree.sub_tree_nodes, id) {
        return Some(&tree.sub_tree_nodes[i]);
    }
    None
}

/// The position in `catalog` of the first tree for specialization `spec`.
fn find_tree(catalog: &Vec<TraitTree>, spec: u64) -> (r: Option<usize>)
    ensures
        match r {
            Some(i) => i < catalog@.len() && tree_for_spec(tree_views(catalog@), spec as nat) == Some(
                catalog@[i as int]@,
            ),
            None => tree_for_spec(tree_views(catalog@), spec as nat) is None,
        },
{
    let ghost views = tree_views(catalog@);
    assert(views.subrange(0, views.len() as int) == views);
    let mut i: usize = 0;
    while i < catalog.len()
        invariant
            views == tree_views(catalog@),
            i <= catalog@.len(),
            tree_for_spec(views, spec as nat) == tree_for_spec(
                views.subrange(i as int, views.len() as int),
                spec as nat,
            ),
        decreases catalog@.len() - i,
    {
        let ghost rest = views.subrange(i as int, views.len() as int);
        assert(rest[0] == catalog@[i as int]@);
        if catalog[i].spec_id as u64 == spec {
            return Some(i);
        }
        assert(rest.drop_first() == views.subrange(i + 1, views.len() as int));
        i += 1;
    }
    assert(views.subrange(i as int, views.len() as int).len() == 0);
    None
}

impl Clone for TalentEntry {
    fn clone(&self) -> (r: TalentEntry)
        ensures
            r@ == self@,
    {
        TalentEntry {
            rank: self.rank,
            trait_tree_node: self.trait_tree_node.clone(),
            trait_tree_entry: self.trait_tree_entry.clone(),
        }
    }
}

/// A copy of the entry that `n` resolves to without a choice.
fn first_entry_of(n: &TraitTreeNode) -> (r: TraitTreeEntry)
    ensures
        r@ == first_entry(n@),
{
    if n.entries.len() > 0 {
        n.entries[0].clone()
    } else {
        TraitTreeEntry::default()
    }
}

/// Reads the optional partial rank; `rank` stands where there is none.
fn read_rank(reader: &mut BitStreamReader, rank_bits: usize, rank: u64) -> (r: Result<
    u64,
    TalentConfigurationError,
>)
    requires
        old(reader).well_formed(),
        rank_bits <= 64,
    ensures
        final(reader).well_formed(),
        final(reader).symbols() == old(reader).symbols(),
        final(reader).byte_size() == old(reader).byte_size(),
        match decode_rank(
            old(reader).symbols(),
            old(reader).byte_size(),
            rank_bits as nat,
            old(reader).position(),
            rank as nat,
        ) {
            Ok((v, p)) => r == Ok::<u64, TalentConfigurationError>(v as u64) && v == v as u64
                && final(reader).position() == p,
            Err(e) => r == Err::<u64, TalentConfigurationError>(e),
        },
{
    let flag = match reader.read_bits(1) {
        Some(v) => v,
        None => return Err(TalentConfigurationError::InsufficientBits),
    };
    if flag == 1 {
        match reader.read_bits(rank_bits) {
            Some(v) => Ok(v),
            None => Err(TalentConfigurationError::InsufficientBits),
        }
    } else {
        Ok(rank)
    }
}

/// Reads the optional choice of entry; the node's first entry stands where
/// there is none. Gives the entry and the sub-tree it opens.
fn read_choice(reader: &mut BitStreamReader, choice_bits: usize, n: &TraitTreeNode) -> (r: Result<
    (TraitTreeEntry, Option<usize>),
    TalentConfigurationError,
>)
    requires
        old(reader).well_formed(),
        choice_bits <= 64,
    ensures
        final(reader).well_formed(),
        final(reader).symbols() == old(reader).symbols(),
        final(reader).byte_size() == old(reader).byte_size(),
        match decode_choice(
            old(reader).symbols(),
            old(reader).byte_size(),
            choice_bits as nat,
            old(reader).position(),
            n@,
        ) {
            Ok((e, opened, p)) => r matches Ok((entry, o)) && entry@ == e && o == opened
                && final(reader).position() == p,
            Err(e) => r matches Err(x) && x == e,
        },
{
    let flag = match reader.read_bits(1) {
        Some(v) => v,
        None => return Err(TalentConfigurationError::InsufficientBits),
    };
    if flag != 1 {
        return Ok((first_entry_of(n), None));
    }
    let index = match reader.read_bits(choice_bits) {
        Some(v) => v,
        None => return Err(TalentConfigurationError::InsufficientBits),
    };
    if index >= n.entries.len() as u64 {
        return Err(TalentConfigurationError::ChoiceIndexOutOfRange);
    }
    let entry = n.entries[index as usize].clone();
    match entry.node_type {
        Some(TraitTreeEntryType::SubTree) => match entry.trait_sub_tree_id {
            Some(id) => Ok((entry, Some(id))),
            None => Err(TalentConfigurationError::SubTreeMissingId),
        },
        _ => Ok((entry, None)),
    }
}

/// Decodes one unit of the node order: `node` is the tree's node for the
/// unit's id, or `None` where the tree has no node with that id.
pub fn decode_node(
    reader: &mut BitStreamReader,
    rank_bits: usize,
    choice_bits: usize,
    node: Option<&TraitTreeNode>,
) -> (r: Result<DecodedNode, TalentConfigurationError>)
    requires
        old(reader).well_formed(),
        rank_bits <= 64,
        choice_bits <= 64,
    ensures
        final(reader).well_formed(),
        final(reader).symbols() == old(reader).symbols(),
        final(reader).byte_size() == old(reader).byte_size(),
        match unit_outcome(
            old(reader).symbols(),
            old(reader).byte_size(),
            rank_bits as nat,
            choice_bits as nat,
            old(reader).position(),
            node_view_of(node),
        ) {
            Ok(o) => r matches Ok(d) && d@ == (o.talent, o.placement, o.opened_subtree)
                && final(reader).position() == o.next,
            Err(e) => r matches Err(x) && x == e,
        },
{
    let start = match reader.read_bits(1) {
        Some(v) => v,
        None => return Err(TalentConfigurationError::InsufficientBits),
    };
    let n = match node {
        None => {
            return Ok(
                DecodedNode {
                    talent: TalentEntry {
                        rank: 0,
                        trait_tree_node: TraitTreeNode::default(),
                        trait_tree_entry: TraitTreeEntry::default(),
                    },
                    placement: Placement::Hidden,
                    opened_subtree: None,
                },
            );
        },
        Some(n) => n,
    };
    let first = first_entry_of(n);
    if start == 0 {
        return Ok(
            DecodedNode {
                talent: TalentEntry { rank: 0, trait_tree_node: n.clone(), trait_tree_entry: first },
                placement: Placement::Unselected,
                opened_subtree: None,
            },
        );
    }
    let placement = match first.node_type {
        Some(TraitTreeEntryType::SubTree) => Placement::Hidden,
        _ => Placement::Selected,
    };
    let full: u64 = match n.max_ranks {
        Some(m) => m as u64,
        None => 1,
    };
    let modifiers = match reader.read_bits(1) {
        Some(v) => v,
        None => return Err(TalentConfigurationError::InsufficientBits),
    };
    if modifiers == 0 {
        return Ok(
            DecodedNode {
                talent: TalentEntry { rank: full, trait_tree_node: n.clone(), trait_tree_entry: first },
                placement,
                opened_subtree: None,
            },
        );
    }
    let rank = match read_rank(reader, rank_bits, full) {
        Ok(v) => v,
        Err(e) => return Err(e),
    };
    let (entry, opened) = match read_choice(reader, choice_bits, n) {
        Ok(c) => c,
        Err(e) => return Err(e),
    };
    Ok(
        DecodedNode {
            talent: TalentEntry { rank, trait_tree_node: n.clone(), trait_tree_entry: entry },
            placement,
            opened_subtree: opened,
        },
    )
}

proof fn lemma_units_error_persists(
    bits: Seq<usize>,
    b: nat,
    rank_bits: nat,
    choice_bits: nat,
    nodes: Seq<TraitTreeNodeView>,
    order: Seq<usize>,
    start: nat,
    i: int,
    e: TalentConfigurationError,
)
    requires
        0 <= i <= order.len(),
        decode_units(bits, b, rank_bits, choice_bits, nodes, order.subrange(0, i), start) == Err::<
            DecodeState,
            TalentConfigurationError,
        >(e),
    ensures
        decode_units(bits, b, rank_bits, choice_bits, nodes, order, start) == Err::<
            DecodeState,
            TalentConfigurationError,
        >(e),
    decreases order.len() - i,
{
    if i < order.len() {
        assert(order.subrange(0, i + 1).drop_last() == order.subrange(0, i));
        lemma_units_error_persists(bits, b, rank_bits, choice_bits, nodes, order, start, i + 1, e);
    } else {
        assert(order.subrange(0, i) == order);
    }
}

/// `id` is one of `ids`.
pub(crate) fn contains_id(ids: &Vec<usize>, id: usize) -> (r: bool)
    ensures
        r == ids@.contains(id),
{
    let mut i: usize = 0;
    while i < ids.len()
        invariant
            i <= ids@.len(),
            forall|j: int| 0 <= j < i ==> ids@[j] != id,
        decreases ids@.len() - i,
    {
        if ids[i] == id {
            return true;
        }
        i += 1;
    }
    false
}

/// Decodes the units of the tree's node order, one after another.
fn decode_talents(
    reader: &mut BitStreamReader,
    rank_bits: usize,
    choice_bits: usize,
    tree: &TraitTree,
) -> (r: Result<
    (Vec<TalentEntry>, Vec<TalentEntry>, Vec<TalentEntry>, Vec<usize>),
    TalentConfigurationError,
>)
    requires
        old(reader).well_formed(),
        rank_bits <= 64,
        choice_bits <= 64,
    ensures
        final(reader).well_formed(),
        match decode_units(
            old(reader).symbols(),
            old(reader).byte_size(),
            rank_bits as nat,
            choice_bits as nat,
            tree_nodes(tree@),
            tree@.full_node_order,
            old(reader).position(),
        ) {
            Ok(st) => r matches Ok((selected, unselected, all, subtrees)) && talent_views(selected@)
                == st.selected && talent_views(unselected@) == st.unselected && talent_views(all@)
                == st.all && subtrees@ == st.subtrees,
            Err(e) => r matches Err(x) && x == e,
        },
{
    let ghost bits = reader.symbols();
    let ghost b = reader.byte_size();
    let ghost start = reader.position();
    let ghost nodes = tree_nodes(tree@);
    let ghost order = tree@.full_node_order;
    let mut selected: Vec<TalentEntry> = Vec::new();
    let mut unselected: Vec<TalentEntry> = Vec::new();
    let mut all: Vec<TalentEntry> = Vec::new();
    let mut subtrees: Vec<usize> = Vec::new();
    let mut i: usize = 0;
    assert(talent_views(selected@) =~= Seq::<TalentEntryView>::empty());
    assert(order.subrange(0, 0) =~= Seq::<usize>::empty());
    while i < tree.full_node_order.len()
        invariant
            reader.well_formed(),
            reader.symbols() == bits,
            reader.byte_size() == b,
            bits == old(reader).symbols(),
            b == old(reader).byte_size(),
            start == old(reader).position(),
            rank_bits <= 64,
            choice_bits <= 64,
            nodes == tree_nodes(tree@),
            order == tree@.full_node_order,
            i <= order.len(),
            decode_units(bits, b, rank_bits as nat, choice_bits as nat, nodes, order.subrange(0, i as int), start)
                == Ok::<DecodeState, TalentConfigurationError>(
                DecodeState {
                    pos: reader.position(),
                    selected: talent_views(selected@),
                    unselected: talent_views(unselected@),
                    all: talent_views(all@),
                    subtrees: subtrees@,
                },
            ),
        decreases order.len() - i,
    {
        let id = tree.full_node_order[i];
        let node = lookup_node(tree, id);
        proof {
            assert(order.subrange(0, i + 1).drop_last() == order.subrange(0, i as int));
            assert(order.subrange(0, i + 1).last() == id);
        }
        let ghost before = reader.position();
        let decoded = match decode_node(reader, rank_bits, choice_bits, node) {
            Ok(d) => d,
            Err(e) => {
                proof {
                    assert(unit_outcome(
                        bits,
                        b,
                        rank_bits as nat,
                        choice_bits as nat,
                        before,
                        node_with_id(nodes, id),
                    ) == Err::<NodeOutcome, TalentConfigurationError>(e));
                    assert(decode_units(
                        bits,
                        b,
                        rank_bits as nat,
                        choice_bits as nat,
                        nodes,
                        order.subrange(0, i + 1),
                        start,
                    ) == Err::<DecodeState, TalentConfigurationError>(e));
                    lemma_units_error_persists(
                        bits,
                        b,
                        rank_bits as nat,
                        choice_bits as nat,
                        nodes,
                        order,
                        start,
                        i + 1,
                        e,
                    );
                }
                return Err(e);
            },
        };
        let DecodedNode { talent, placement, opened_subtree } = decoded;
        let ghost sel0 = selected@;
        let ghost unsel0 = unselected@;
        let ghost all0 = all@;
        match placement {
            Placement::Selected => selected.push(talent.clone()),
            Placement::Unselected => unselected.push(talent.clone()),
            Placement::Hidden => {},
        }
        all.push(talent);
        if let Some(opened) = opened_subtree {
            if !contains_id(&subtrees, opened) {
                subtrees.push(opened);
            }
        }
        proof {
            assert(talent_views(all@) =~= talent_views(all0).push(all@.last()@));
            if placement == Placement::Selected {
                assert(talent_views(selected@) =~= talent_views(sel0).push(all@.last()@));
            } else {
                assert(selected@ == sel0);
            }
            if placement == Placement::Unselected {
                assert(talent_views(unselected@) =~= talent_views(unsel0).push(all@.last()@));
            } else {
                assert(unselected@ == unsel0);
            }
        }
        i += 1;
    }
    assert(order.subrange(0, i as int) == order);
    Ok((selected, unselected, all, subtrees))
}

/// The specialization whose tree a blank configuration shows.
pub const DEFAULT_SPEC_ID: usize = 268;

/// A node listed unselected, with no entry chosen.
pub open spec fn blank_talent(n: TraitTreeNodeView) -> TalentEntryView {
    TalentEntryView { rank: 0, node: n, entry: default_entry_view() }
}

/// The configuration that selects nothing in the tree of the default
/// specialization: every node unselected, in category order.
pub open spec fn blank_configuration(catalog: Seq<TraitTreeView>) -> Result<
    TalentConfigurationView,
    TalentConfigurationError,
> {
    match tree_for_spec(catalog, DEFAULT_SPEC_ID as nat) {
        None => Err(TalentConfigurationError::SpecNotFound),
        Some(t) => {
            let talents = tree_nodes(t).map_values(|n: TraitTreeNodeView| blank_talent(n));
            Ok(
                TalentConfigurationView {
                    string: Seq::empty(),
                    spec: t.spec_id,
                    selected: Seq::empty(),
                    unselected: talents,
                    all: talents,
                    subtrees: Seq::empty(),
                    trait_tree: t,
                },
            )
        },
    }
}

/// Appends each of `nodes` to `out` as an unselected talent.
fn push_blank_talents(nodes: &Vec<TraitTreeNode>, out: &mut Vec<TalentEntry>)
    ensures
        talent_views(final(out)@) == talent_views(old(out)@) + node_views(nodes@).map_values(
            |n: TraitTreeNodeView| blank_talent(n),
        ),
{
    let ghost start = talent_views(out@);
    let ghost blanks = node_views(nodes@).map_values(|n: TraitTreeNodeView| blank_talent(n));
    let mut i: usize = 0;
    assert(talent_views(out@) =~= start + blanks.subrange(0, 0));
    while i < nodes.len()
        invariant
            i <= nodes@.len(),
            blanks == node_views(nodes@).map_values(|n: TraitTreeNodeView| blank_talent(n)),
            start == talent_views(old(out)@),
            talent_views(out@) == start + blanks.subrange(0, i as int),
        decreases nodes@.len() - i,
    {
        let ghost before = out@;
        out.push(TalentEntry { rank: 0, trait_tree_node: nodes[i].clone(), trait_tree_entry: TraitTreeEntry::default() });
        assert(talent_views(out@) =~= talent_views(before).push(blanks[i as int]));
        assert(blanks.subrange(0, i + 1) =~= blanks.subrange(0, i as int).push(blanks[i as int]));
        i += 1;
    }
    assert(blanks.subrange(0, i as int) == blanks);
}

/// The value of a decoding result.
pub open spec fn outcome_view(r: Result<TalentConfiguration, TalentConfigurationError>) -> Result<
    TalentConfigurationView,
    TalentConfigurationError,
> {
    match r {
        Ok(c) => Ok(c@),
        Err(e) => Err(e),
    }
}

impl TalentConfiguration {
    /// Decodes loadout string `s` under `config` against the trees of
    /// `trait_tree_data`.
    pub fn new_from_str(s: &str, config: TalentEncoding, trait_tree_data: Vec<TraitTree>) -> (r: Result<
        TalentConfiguration,
        TalentConfigurationError,
    >)
        requires
            config.well_formed(),
        ensures
            outcome_view(r) == decode_loadout(s@, config, tree_views(trait_tree_data@)),
            r matches Ok(c) ==> c.subtrees@.no_duplicates(),
    {
        proof {
            crate::theorems::lemma_active_subtrees_distinct(s@, config, tree_views(trait_tree_data@));
        }
        match config.valid_base64(s) {
            Err(e) => return Err(TalentConfigurationError::TalentEncodingError(e)),
            Ok(()) => {},
        }
        match config.valid_size(s) {
            Err(e) => return Err(TalentConfigurationError::TalentEncodingError(e)),
            Ok(()) => {},
        }
        let symbols = match config.symbol_values(s) {
            Ok(v) => v,
            Err(e) => return Err(TalentConfigurationError::TalentEncodingError(e)),
        };
        let ghost bits = symbols@;
        let mut reader = BitStreamReader::new(symbols, config.byte_size);
        assert(reader.total() == s@.len() * config.byte_size);
        let version = match reader.read_bits(config.version_bits) {
            Some(v) => v,
            None => return Err(TalentConfigurationError::InsufficientBits),
        };
        let spec = match reader.read_bits(config.spec_bits) {
            Some(v) => v,
            None => return Err(TalentConfigurationError::InsufficientBits),
        };
        if !reader.skip_bits(config.tree_bits) {
            return Err(TalentConfigurationError::InsufficientBits);
        }
        assert(reader.position() == config.header_bits());
        match config.valid_version(version) {
            Err(e) => return Err(TalentConfigurationError::TalentEncodingError(e)),
            Ok(()) => {},
        }
        let index = match find_tree(&trait_tree_data, spec) {
            Some(i) => i,
            None => return Err(TalentConfigurationError::SpecNotFound),
        };
        let mut catalog = trait_tree_data;
        let tree = catalog.remove(index);
        let (selected, unselected, all, subtrees) = match decode_talents(
            &mut reader,
            config.rank_bits,
            config.choice_bits,
            &tree,
        ) {
            Ok(t) => t,
            Err(e) => return Err(e),
        };
        Ok(
            TalentConfiguration {
                string: String::from_str(s),
                spec: tree.spec_id,
                selected_talents: selected,
                unselected_talents: unselected,
                all_talents: all,
                subtrees,
                trait_tree: tree,
            },
        )
    }

    /// The configuration that selects nothing in the tree of the default
    /// specialization, or `SpecNotFound` where the catalog lacks that tree.
    pub fn new(config: TalentEncoding, trait_tree_data: Vec<TraitTree>) -> (r: Result<
        TalentConfiguration,
        TalentConfigurationError,
    >)
        ensures
            outcome_view(r) == blank_configuration(tree_views(trait_tree_data@)),
    {
        let index = match find_tree(&trait_tree_data, DEFAULT_SPEC_ID as u64) {
            Some(i) => i,
            None => return Err(TalentConfigurationError::SpecNotFound),
        };
        let mut catalog = trait_tree_data;
        let tree = catalog.remove(index);
        let ghost t = tree@;
        let mut talents: Vec<TalentEntry> = Vec::new();
        assert(talent_views(talents@) =~= Seq::<TalentEntryView>::empty());
        push_blank_talents(&tree.class_nodes, &mut talents);
        push_blank_talents(&tree.spec_nodes, &mut talents);
        push_blank_talents(&tree.hero_nodes, &mut talents);
        push_blank_talents(&tree.sub_tree_nodes, &mut talents);
        let mut all: Vec<TalentEntry> = Vec::new();
        let mut i: usize = 0;
        while i < talents.len()
            invariant
                i <= talents@.len(),
                all@.len() == i,
                forall|j: int| 0 <= j < i ==> all@[j]@ == talents@[j]@,
            decreases talents@.len() - i,
        {
            all.push(talents[i].clone());
            i += 1;
        }
        proof {
            let blank = |n: TraitTreeNodeView| blank_talent(n);
            assert(talent_views(all@) =~= talent_views(talents@));
            assert(tree_nodes(t).map_values(blank) =~= node_views(tree.class_nodes@).map_values(blank)
                + node_views(tree.spec_nodes@).map_values(blank) + node_views(tree.hero_nodes@).map_values(blank)
                + node_views(tree.sub_tree_nodes@).map_values(blank));
            assert(talent_views(talents@) =~= tree_nodes(t).map_values(blank));
        }
        let r = TalentConfiguration {
            string: String::new(),
            spec: tree.spec_id,
            selected_talents: Vec::new(),
            unselected_talents: talents,
            all_talents: all,
            subtrees: Vec::new(),
            trait_tree: tree,
        };
        assert(talent_views(r.selected_talents@) =~= Seq::<TalentEntryView>::empty());
        let _ = config;
        Ok(r)
    }
}

} // verus!
