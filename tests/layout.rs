use talent_loadout::talent_configuration::{TalentConfiguration, TalentEntry};
use talent_loadout::talent_encoding::TalentEncoding;
use talent_loadout::trait_tree::{TraitTree, TraitTreeEntry, TraitTreeNode, TraitTreeNodeType};

fn node(id: usize, x: i32, y: i32, sub_tree: Option<usize>, entry_node: Option<bool>) -> TraitTreeNode {
    TraitTreeNode {
        id,
        pos_x: x,
        pos_y: y,
        max_ranks: Some(1),
        name: format!("node {id}"),
        node_type: TraitTreeNodeType::Single,
        entry_node,
        next: vec![],
        prev: vec![],
        entries: vec![],
        trait_sub_tree_id: sub_tree,
    }
}

fn talent(n: TraitTreeNode) -> TalentEntry {
    TalentEntry { rank: 0, trait_tree_node: n, trait_tree_entry: TraitTreeEntry::default() }
}

fn configuration(subtrees: Vec<usize>) -> TalentConfiguration {
    let tree = TraitTree {
        trait_tree_id: 1,
        class_id: 1,
        spec_id: 268,
        class_name: "class".to_string(),
        spec_name: "spec".to_string(),
        class_nodes: vec![node(1, 300, 600, None, None), node(2, 900, 1200, None, None)],
        spec_nodes: vec![node(3, 3000, 600, None, None), node(4, 2400, 900, None, None)],
        hero_nodes: vec![
            node(5, 7000, 1500, Some(8), Some(true)),
            node(6, 7500, 2100, Some(9), Some(true)),
            node(7, 7500, 2700, Some(9), None),
        ],
        sub_tree_nodes: vec![],
        full_node_order: vec![],
    };
    let mut c = TalentConfiguration::new(TalentEncoding::default(), vec![tree]).unwrap();
    c.subtrees = subtrees;
    c
}

#[test]
fn placeholders_selectors_and_closed_subtrees_are_not_drawn() {
    let c = configuration(vec![9]);
    assert!(c.do_draw(&talent(node(1, 0, 0, None, None))));
    assert!(!c.do_draw(&talent(node(0, 0, 0, None, None))));
    let mut selector = node(10, 0, 0, None, None);
    selector.node_type = TraitTreeNodeType::SubTree;
    assert!(!c.do_draw(&talent(selector)));
    assert!(c.do_draw(&talent(node(6, 0, 0, Some(9), None))));
    assert!(!c.do_draw(&talent(node(5, 0, 0, Some(8), None))));
}

#[test]
fn hero_offset_centres_the_active_sub_tree() {
    let c = configuration(vec![9]);
    // x: (900 + 2400) / 2 - 7500 = -5850
    // y: (600 + 1200) / 2 - (2700 - 1500) / 4 - 2100 = -1500
    assert_eq!(c.compute_hero_talent_normalization(), Some((-5850, -1500)));
}

#[test]
fn hero_offset_needs_an_active_entry_node() {
    assert_eq!(configuration(vec![]).compute_hero_talent_normalization(), None);
    assert_eq!(configuration(vec![4]).compute_hero_talent_normalization(), None);
}

#[test]
fn positions_are_scaled_toward_zero() {
    let c = configuration(vec![9]);
    assert_eq!(c.coordinate_transformation(&talent(node(1, 300, 601, None, None))), Some((20, 40)));
    assert_eq!(c.coordinate_transformation(&talent(node(1, -29, -16, None, None))), Some((-1, -1)));
    // hero talents move by the offset first: (7500 - 5850) / 15, (2700 - 1500) / 15
    assert_eq!(c.coordinate_transformation(&talent(node(7, 7500, 2700, Some(9), None))), Some((110, 80)));
    assert_eq!(configuration(vec![]).coordinate_transformation(&talent(node(7, 1, 1, Some(9), None))), None);
}
