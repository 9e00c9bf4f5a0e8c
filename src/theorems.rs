//! What holds of every decoding, proved from the decoding's definition.

use vstd::prelude::*;

use crate::bit_reader::{bit_at, bits_value, total_bits};
use crate::talent_configuration::{
    apply_outcome, decode_loadout, TalentConfigurationView, decode_units, first_entry, full_rank, outcome_view, tree_nodes,
    unit_outcome, NodeOutcome, TalentConfiguration, TalentConfigurationError,
};
use crate::talent_encoding::{in_alphabet, TalentEncoding, TalentEncodingError};
use crate::trait_tree::{TraitTreeNodeView, TraitTreeView};

verus! {

/// A string with a character outside the alphabet is refused with
/// `InvalidBase64Charset`, whatever the catalog holds: the check comes before
/// any field is read.
pub proof fn lemma_foreign_character_refused(
    s: Seq<char>,
    config: TalentEncoding,
    catalog: Seq<TraitTreeView>,
    i: int,
)
    requires
        0 <= i < s.len(),
        !config.base64_chars@.contains(s[i]),
    ensures
        decode_loadout(s, config, catalog) == Err::<TalentConfigurationView, TalentConfigurationError>(
            TalentConfigurationError::TalentEncodingError(TalentEncodingError::InvalidBase64Charset),
        ),
{
    assert(!in_alphabet(config.base64_chars@, s));
}

/// A string of the alphabet with fewer characters than the header needs,
/// `ceil(header_bits / byte_size)`, is refused with `StringTooShort`, before
/// any tree is looked up.
pub proof fn lemma_short_string_refused(s: Seq<char>, config: TalentEncoding, catalog: Seq<TraitTreeView>)
    requires
        config.byte_size > 0,
        in_alphabet(config.base64_chars@, s),
        s.len() < (config.header_bits() + config.byte_size - 1) / (config.byte_size as int),
    ensures
        decode_loadout(s, config, catalog) == Err::<TalentConfigurationView, TalentConfigurationError>(
            TalentConfigurationError::TalentEncodingError(TalentEncodingError::StringTooShort),
        ),
{
    let h = config.header_bits();
    let b = config.byte_size as int;
    let len = s.len() as int;
    let q = (h + b - 1) / b;
    assert(q * b <= h + b - 1) by (nonlinear_arith)
        requires
            b > 0,
            q == (h + b - 1) / b,
    ;
    assert(len * b + b <= q * b) by (nonlinear_arith)
        requires
            b > 0,
            len + 1 <= q,
    ;
    assert(!config.fits_header(len));
}

/// Decoding is a function of its inputs: two decodings of one string under one
/// configuration against one catalog give the same loadout, or the same error.
pub proof fn lemma_decoding_deterministic(
    s: Seq<char>,
    config: TalentEncoding,
    catalog: Seq<TraitTreeView>,
    first: Result<TalentConfiguration, TalentConfigurationError>,
    second: Result<TalentConfiguration, TalentConfigurationError>,
)
    requires
        outcome_view(first) == decode_loadout(s, config, catalog),
        outcome_view(second) == decode_loadout(s, config, catalog),
    ensures
        outcome_view(first) == outcome_view(second),
{
}

proof fn lemma_single_bit(bits: Seq<usize>, b: nat, pos: nat)
    ensures
        bits_value(bits, b, pos, 1) == bit_at(bits, b, pos),
{
    reveal_with_fuel(bits_value, 2);
}

/// A node whose start bit is 1 and whose modifiers bit is 0 commits its full
/// rank (its maximum, or 1 where it declares none) with its first entry.
pub proof fn lemma_unmodified_selection_full_rank(
    bits: Seq<usize>,
    b: nat,
    rank_bits: nat,
    choice_bits: nat,
    pos: nat,
    n: TraitTreeNodeView,
)
    requires
        pos + 2 <= total_bits(bits.len(), b),
        bit_at(bits, b, pos) == 1,
        bit_at(bits, b, pos + 1) == 0,
    ensures
        unit_outcome(bits, b, rank_bits, choice_bits, pos, Some(n)) matches Ok(o) && o.talent.rank
            == full_rank(n) && o.talent.entry == first_entry(n) && o.next == pos + 2,
{
    lemma_single_bit(bits, b, pos);
    lemma_single_bit(bits, b, pos + 1);
}

/// Where the partial rank bit is 1, the committed rank is the rank field that
/// follows it; so it never exceeds the node's maximum when the field does not.
pub proof fn lemma_partial_rank_within_maximum(
    bits: Seq<usize>,
    b: nat,
    rank_bits: nat,
    choice_bits: nat,
    pos: nat,
    n: TraitTreeNodeView,
    max_ranks: usize,
)
    requires
        n.max_ranks == Some(max_ranks),
        pos + 3 + rank_bits <= total_bits(bits.len(), b),
        bit_at(bits, b, pos) == 1,
        bit_at(bits, b, pos + 1) == 1,
        bit_at(bits, b, pos + 2) == 1,
        bits_value(bits, b, pos + 3, rank_bits) <= max_ranks,
    ensures
        unit_outcome(bits, b, rank_bits, choice_bits, pos, Some(n)) matches Ok(o) ==> o.talent.rank
            == bits_value(bits, b, pos + 3, rank_bits) && o.talent.rank <= max_ranks,
{
    lemma_single_bit(bits, b, pos);
    lemma_single_bit(bits, b, pos + 1);
    lemma_single_bit(bits, b, pos + 2);
}

/// Where the choice bit is 1 and the index that follows is not below the
/// number of the node's entries, the unit fails with `ChoiceIndexOutOfRange`.
pub proof fn lemma_choice_out_of_range_refused(
    bits: Seq<usize>,
    b: nat,
    rank_bits: nat,
    choice_bits: nat,
    pos: nat,
    n: TraitTreeNodeView,
)
    requires
        pos + 3 <= total_bits(bits.len(), b),
        bit_at(bits, b, pos) == 1,
        bit_at(bits, b, pos + 1) == 1,
        ({
            let q: nat = if bit_at(bits, b, pos + 2) == 1 {
                pos + 3 + rank_bits
            } else {
                pos + 3
            };
            &&& q + 1 + choice_bits <= total_bits(bits.len(), b)
            &&& bit_at(bits, b, q) == 1
            &&& bits_value(bits, b, q + 1, choice_bits) >= n.entries.len()
        }),
    ensures
        unit_outcome(bits, b, rank_bits, choice_bits, pos, Some(n)) == Err::<NodeOutcome, _>(
            TalentConfigurationError::ChoiceIndexOutOfRange,
        ),
{
    let q: nat = if bit_at(bits, b, pos + 2) == 1 {
        pos + 3 + rank_bits
    } else {
        pos + 3
    };
    lemma_single_bit(bits, b, pos);
    lemma_single_bit(bits, b, pos + 1);
    lemma_single_bit(bits, b, pos + 2);
    lemma_single_bit(bits, b, q);
}

proof fn lemma_units_subtrees_distinct(
    bits: Seq<usize>,
    b: nat,
    rank_bits: nat,
    choice_bits: nat,
    nodes: Seq<TraitTreeNodeView>,
    order: Seq<usize>,
    start: nat,
)
    ensures
        decode_units(bits, b, rank_bits, choice_bits, nodes, order, start) matches Ok(st)
            ==> st.subtrees.no_duplicates(),
    decreases order.len(),
{
    if order.len() > 0 {
        lemma_units_subtrees_distinct(bits, b, rank_bits, choice_bits, nodes, order.drop_last(), start);
        match decode_units(bits, b, rank_bits, choice_bits, nodes, order.drop_last(), start) {
            Ok(st) => {
                let u = unit_outcome(bits, b, rank_bits, choice_bits, st.pos, crate::talent_configuration::node_with_id(nodes, order.last()));
                if let Ok(o) = u {
                    let next = apply_outcome(st, o);
                    if let Some(id) = o.opened_subtree {
                        if !st.subtrees.contains(id) {
                            assert forall|i: int, j: int|
                                0 <= i < next.subtrees.len() && 0 <= j < next.subtrees.len() && i != j
                                implies next.subtrees[i] != next.subtrees[j] by {
                                if i < st.subtrees.len() && j < st.subtrees.len() {
                                } else if i < st.subtrees.len() {
                                    assert(st.subtrees.contains(st.subtrees[i]));
                                } else {
                                    assert(st.subtrees.contains(st.subtrees[j]));
                                }
                            }
                        }
                    }
                }
            },
            Err(_) => {},
        }
    }
}

/// The active sub-tree ids of a decoded loadout hold no id twice, however
/// many chosen entries open the same sub-tree.
pub proof fn lemma_active_subtrees_distinct(
    s: Seq<char>,
    config: TalentEncoding,
    catalog: Seq<TraitTreeView>,
)
    ensures
        decode_loadout(s, config, catalog) matches Ok(v) ==> v.subtrees.no_duplicates(),
{
    if let Ok(v) = decode_loadout(s, config, catalog) {
        let t = v.trait_tree;
        lemma_units_subtrees_distinct(
            crate::talent_encoding::symbols_of(config.base64_chars@, s),
            config.byte_size as nat,
            config.rank_bits as nat,
            config.choice_bits as nat,
            tree_nodes(t),
            t.full_node_order,
            config.header_bits() as nat,
        );
    }
}

} // verus!
