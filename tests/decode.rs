use talent_loadout::talent_configuration::{
    TalentConfiguration, TalentConfigurationError, DEFAULT_SPEC_ID,
};
use talent_loadout::talent_encoding::{TalentEncoding, TalentEncodingError};
use talent_loadout::trait_tree::{
    TraitTree, TraitTreeEntry, TraitTreeEntryType, TraitTreeNode, TraitTreeNodeType,
};
use talent_loadout::version::Version;

fn fixture_config() -> TalentEncoding {
    TalentEncoding {
        version: Version::default(),
        base64_chars: "ABCD".to_string(),
        serialization_version: 1,
        version_bits: 2,
        spec_bits: 2,
        tree_bits: 0,
        rank_bits: 2,
        choice_bits: 1,
        byte_size: 2,
    }
}

fn entry(id: usize, kind: TraitTreeEntryType, sub_tree: Option<usize>) -> TraitTreeEntry {
    TraitTreeEntry {
        id: Some(id),
        definition_id: None,
        max_ranks: None,
        node_type: Some(kind),
        name: Some(format!("entry {id}")),
        spell_id: None,
        index: None,
        trait_sub_tree_id: sub_tree,
    }
}

fn node(id: usize, max_ranks: Option<usize>, entries: Vec<TraitTreeEntry>) -> TraitTreeNode {
    TraitTreeNode {
        id,
        pos_x: 10,
        pos_y: 20,
        max_ranks,
        name: format!("node {id}"),
        node_type: TraitTreeNodeType::Single,
        entry_node: None,
        next: vec![],
        prev: vec![],
        entries,
        trait_sub_tree_id: None,
    }
}

fn tree(spec_id: usize, nodes: Vec<TraitTreeNode>, order: Vec<usize>) -> TraitTree {
    TraitTree {
        trait_tree_id: 1,
        class_id: 1,
        spec_id,
        class_name: "class".to_string(),
        spec_name: "spec".to_string(),
        class_nodes: nodes,
        spec_nodes: vec![],
        hero_nodes: vec![],
        sub_tree_nodes: vec![],
        full_node_order: order,
    }
}

/// One tree for specialization 1 with a single node of maximum rank 3.
fn fixture_catalog() -> Vec<TraitTree> {
    vec![tree(
        1,
        vec![node(
            1,
            Some(3),
            vec![entry(11, TraitTreeEntryType::Active, None), entry(12, TraitTreeEntryType::Passive, None)],
        )],
        vec![1],
    )]
}

fn decode(s: &str, catalog: Vec<TraitTree>) -> Result<TalentConfiguration, TalentConfigurationError> {
    TalentConfiguration::new_from_str(s, fixture_config(), catalog)
}

#[test]
fn unselected_node_is_listed_unselected() {
    // version 1, spec 1, start bit 0
    let c = decode("BBA", fixture_catalog()).unwrap();
    assert_eq!(c.spec, 1);
    assert!(c.selected_talents.is_empty());
    assert_eq!(c.unselected_talents.len(), 1);
    assert_eq!(c.unselected_talents[0].rank, 0);
    assert_eq!(c.unselected_talents[0].trait_tree_node.id, 1);
    assert_eq!(c.unselected_talents[0].trait_tree_entry.id, Some(11));
    assert_eq!(c.all_talents.len(), 1);
    assert_eq!(c.string, "BBA");
}

#[test]
fn header_only_string_runs_out_of_bits() {
    // "BB" holds only the header: the start bit of node 1 is missing.
    assert_eq!(decode("BB", fixture_catalog()), Err(TalentConfigurationError::InsufficientBits));
}

#[test]
fn unknown_specialization_is_refused() {
    assert_eq!(decode("BC", fixture_catalog()), Err(TalentConfigurationError::SpecNotFound));
}

#[test]
fn selected_without_modifiers_takes_full_rank() {
    // start bit 1, modifiers bit 0
    let c = decode("BBB", fixture_catalog()).unwrap();
    assert_eq!(c.selected_talents.len(), 1);
    assert!(c.unselected_talents.is_empty());
    assert_eq!(c.selected_talents[0].rank, 3);
    assert_eq!(c.selected_talents[0].trait_tree_entry.id, Some(11));
    assert_eq!(c.selected_talents[0].trait_tree_node, fixture_catalog()[0].class_nodes[0]);
}

#[test]
fn selected_without_maximum_takes_rank_one() {
    let catalog = vec![tree(1, vec![node(1, None, vec![entry(11, TraitTreeEntryType::Active, None)])], vec![1])];
    let c = decode("BBB", catalog).unwrap();
    assert_eq!(c.selected_talents[0].rank, 1);
}

#[test]
fn foreign_character_is_refused() {
    assert_eq!(
        decode("BB!", fixture_catalog()),
        Err(TalentConfigurationError::TalentEncodingError(TalentEncodingError::InvalidBase64Charset))
    );
    assert_eq!(
        decode("x", vec![]),
        Err(TalentConfigurationError::TalentEncodingError(TalentEncodingError::InvalidBase64Charset))
    );
}

#[test]
fn short_string_is_refused() {
    assert_eq!(
        decode("B", fixture_catalog()),
        Err(TalentConfigurationError::TalentEncodingError(TalentEncodingError::StringTooShort))
    );
    assert_eq!(
        decode("", vec![]),
        Err(TalentConfigurationError::TalentEncodingError(TalentEncodingError::StringTooShort))
    );
}

#[test]
fn wrong_serialization_version_is_refused() {
    assert_eq!(
        decode("ABA", fixture_catalog()),
        Err(TalentConfigurationError::TalentEncodingError(
            TalentEncodingError::IncorrectSerializationVersion
        ))
    );
}

#[test]
fn decoding_twice_gives_identical_results() {
    for s in ["BBA", "BBB", "BBDBB", "BC", "B!"] {
        assert_eq!(decode(s, fixture_catalog()), decode(s, fixture_catalog()));
    }
}

#[test]
fn partial_rank_is_read_from_rank_field() {
    // start 1, modifiers 1, partial 1, rank field 2 (bits 0 1), choice 0
    let c = decode("BBDBB", fixture_catalog()).unwrap();
    assert_eq!(c.selected_talents[0].rank, 2);
    assert!(c.selected_talents[0].rank <= 3);
    assert_eq!(c.selected_talents[0].trait_tree_entry.id, Some(11));
}

#[test]
fn partial_rank_above_maximum_is_kept_as_read() {
    // node of maximum rank 1; partial rank field 3 (bits 1 1), choice 0
    let catalog = vec![tree(1, vec![node(1, Some(1), vec![entry(11, TraitTreeEntryType::Active, None)])], vec![1])];
    let c = decode("BBDDB", catalog).unwrap();
    assert_eq!(c.selected_talents[0].rank, 3);
}

#[test]
fn choice_picks_declared_entry() {
    // start 1, modifiers 1, partial 0, choice 1, index 1
    let c = decode("BBDCB", fixture_catalog()).unwrap();
    assert_eq!(c.selected_talents[0].trait_tree_entry.id, Some(12));
    assert_eq!(c.selected_talents[0].rank, 3);
}

#[test]
fn choice_index_out_of_range_is_refused() {
    let catalog = vec![tree(1, vec![node(1, Some(3), vec![entry(11, TraitTreeEntryType::Active, None)])], vec![1])];
    assert_eq!(decode("BBDCB", catalog), Err(TalentConfigurationError::ChoiceIndexOutOfRange));
}

#[test]
fn sub_tree_choice_without_id_is_refused() {
    let catalog = vec![tree(
        1,
        vec![node(
            1,
            Some(1),
            vec![entry(11, TraitTreeEntryType::Passive, None), entry(12, TraitTreeEntryType::SubTree, None)],
        )],
        vec![1],
    )];
    assert_eq!(decode("BBDCB", catalog), Err(TalentConfigurationError::SubTreeMissingId));
}

#[test]
fn active_subtrees_hold_each_id_once() {
    let selector = |id: usize| {
        node(
            id,
            Some(1),
            vec![entry(id * 10, TraitTreeEntryType::Passive, None), entry(id * 10 + 1, TraitTreeEntryType::SubTree, Some(7))],
        )
    };
    let catalog = vec![tree(1, vec![selector(1), selector(2)], vec![1, 2])];
    // each node: start 1, modifiers 1, partial 0, choice 1, index 1
    let c = decode("BBDCDBD", catalog).unwrap();
    assert_eq!(c.subtrees, vec![7]);
    assert_eq!(c.selected_talents.len(), 2);
    assert_eq!(c.selected_talents[1].trait_tree_entry.trait_sub_tree_id, Some(7));
}

#[test]
fn missing_node_id_is_a_hidden_placeholder() {
    let c = decode("BBB", vec![tree(1, vec![], vec![5])]).unwrap();
    assert!(c.selected_talents.is_empty());
    assert!(c.unselected_talents.is_empty());
    assert_eq!(c.all_talents.len(), 1);
    assert_eq!(c.all_talents[0].rank, 0);
    assert_eq!(c.all_talents[0].trait_tree_node, TraitTreeNode::default());
    assert_eq!(c.all_talents[0].trait_tree_entry, TraitTreeEntry::default());
}

#[test]
fn sub_tree_selector_is_kept_out_of_selected() {
    let catalog = vec![tree(1, vec![node(1, Some(1), vec![entry(11, TraitTreeEntryType::SubTree, Some(4))])], vec![1])];
    let c = decode("BBB", catalog).unwrap();
    assert!(c.selected_talents.is_empty());
    assert!(c.unselected_talents.is_empty());
    assert_eq!(c.all_talents.len(), 1);
    assert_eq!(c.all_talents[0].rank, 1);
}

#[test]
fn nodes_are_found_across_categories() {
    let mut t = tree(1, vec![], vec![3, 4]);
    t.hero_nodes = vec![node(3, Some(2), vec![entry(31, TraitTreeEntryType::Active, None)])];
    t.sub_tree_nodes = vec![node(4, Some(1), vec![entry(41, TraitTreeEntryType::Active, None)])];
    // node 3: start 1, modifiers 0; node 4: start 0
    let c = decode("BBBA", vec![t]).unwrap();
    assert_eq!(c.selected_talents[0].trait_tree_node.id, 3);
    assert_eq!(c.selected_talents[0].rank, 2);
    assert_eq!(c.unselected_talents[0].trait_tree_node.id, 4);
}

#[test]
fn first_tree_of_a_specialization_is_used() {
    let mut first = fixture_catalog().remove(0);
    first.trait_tree_id = 100;
    let mut second = fixture_catalog().remove(0);
    second.trait_tree_id = 200;
    let c = decode("BBA", vec![first, second]).unwrap();
    assert_eq!(c.trait_tree.trait_tree_id, 100);
}

#[test]
fn default_configuration_decodes_live_header() {
    // 8 version bits (2), 16 spec bits (268), 128 tree bits
    let config = TalentEncoding::default();
    let catalog = vec![tree(268, vec![node(1, Some(1), vec![entry(11, TraitTreeEntryType::Active, None)])], vec![1])];
    let mut s = String::from("CwQ");
    s.push_str(&"A".repeat(22));
    s.push('E');
    let c = TalentConfiguration::new_from_str(&s, config, catalog).unwrap();
    assert_eq!(c.spec, 268);
    assert_eq!(c.selected_talents.len(), 1);
}

#[test]
fn blank_configuration_lists_every_node_unselected() {
    let mut t = tree(DEFAULT_SPEC_ID, vec![node(1, Some(1), vec![])], vec![1, 2]);
    t.spec_nodes = vec![node(2, Some(2), vec![])];
    let c = TalentConfiguration::new(TalentEncoding::default(), vec![fixture_catalog().remove(0), t]).unwrap();
    assert_eq!(c.spec, 268);
    assert!(c.selected_talents.is_empty());
    assert_eq!(c.unselected_talents.len(), 2);
    assert_eq!(c.all_talents, c.unselected_talents);
    assert_eq!(c.all_talents[1].trait_tree_node.id, 2);
    assert_eq!(c.all_talents[0].trait_tree_entry, TraitTreeEntry::default());
    assert_eq!(c.string, "");
}

#[test]
fn blank_configuration_needs_default_tree() {
    assert_eq!(
        TalentConfiguration::new(TalentEncoding::default(), fixture_catalog()),
        Err(TalentConfigurationError::SpecNotFound)
    );
}
