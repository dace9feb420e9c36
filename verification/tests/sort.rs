//! Tests for the indirect sort engine and the canonical record ordering.

use tes3_core::records::{Plugin, TES3Object};
use tes3_core::sort::{apply_isort, isort, SortKey};

#[test]
fn sort_hint() {
    let mut plugin = Plugin {
        objects: vec![
            TES3Object::LandscapeTexture { index: 1 },
            TES3Object::LandscapeTexture { index: 2 },
            TES3Object::LandscapeTexture { index: 0 },
        ],
    };
    plugin.sort_objects();

    let mut expected: u16 = 0;
    for object in &plugin.objects {
        match object {
            TES3Object::LandscapeTexture { index } => {
                assert_eq!(expected, *index);
                expected += 1;
            }
            _ => panic!("unexpected record kind"),
        }
    }
    assert_eq!(3, expected);
}

#[test]
fn sort_identity() {
    let mut indices = vec![0, 1, 2, 3, 4];
    let mut data = vec!['a', 'b', 'c', 'd', 'e'];
    apply_isort(&mut indices, &mut data);
    assert_eq!(vec!['a', 'b', 'c', 'd', 'e'], data);
}

#[test]
fn sort_reverse() {
    let mut indices = vec![4, 3, 2, 1, 0];
    let mut data = vec!['a', 'b', 'c', 'd', 'e'];
    apply_isort(&mut indices, &mut data);
    assert_eq!(vec!['e', 'd', 'c', 'b', 'a'], data);
}

#[test]
fn sort_cycle() {
    let mut indices = vec![1, 2, 3, 4, 0];
    let mut data = vec!['a', 'b', 'c', 'd', 'e'];
    apply_isort(&mut indices, &mut data);
    assert_eq!(vec!['b', 'c', 'd', 'e', 'a'], data);
}

#[test]
fn sort_swap() {
    let mut indices = vec![4, 1, 0, 3, 2];
    let mut data = vec!['a', 'b', 'c', 'd', 'e'];
    apply_isort(&mut indices, &mut data);
    assert_eq!(vec!['e', 'b', 'a', 'd', 'c'], data);
}

fn key(category: u32, hint: i32, id: &str) -> SortKey {
    SortKey { category, hint, id: id.to_string() }
}

#[test]
fn isort_orders_by_category() {
    let keys = vec![key(2, 0, ""), key(0, 0, ""), key(1, 0, "")];
    let mut indices = Vec::new();
    isort(&mut indices, &keys);
    assert_eq!(vec![1, 2, 0], indices);
}

#[test]
fn isort_breaks_category_ties_by_hint_then_id() {
    let keys = vec![key(1, 2, "a"), key(1, 1, "b"), key(1, 1, "a"), key(0, 9, "z")];
    let mut indices = Vec::new();
    isort(&mut indices, &keys);
    assert_eq!(vec![3, 2, 1, 0], indices);
}

#[test]
fn isort_is_stable_for_equal_keys() {
    // three pairwise-equal keys keep their original relative order
    let keys = vec![key(1, 0, "x"), key(0, 0, ""), key(1, 0, "x"), key(1, 0, "x")];
    let mut indices = Vec::new();
    isort(&mut indices, &keys);
    assert_eq!(vec![1, 0, 2, 3], indices);

    let mut data = vec!["first", "zero", "second", "third"];
    apply_isort(&mut indices, &mut data);
    assert_eq!(vec!["zero", "first", "second", "third"], data);
}

fn one_of_each_category() -> Vec<TES3Object> {
    let id = |s: &str| s.to_string();
    vec![
        TES3Object::Header,
        TES3Object::GameSetting { id: id("g") },
        TES3Object::GlobalVariable { id: id("g") },
        TES3Object::Class { id: id("c") },
        TES3Object::Faction { id: id("f") },
        TES3Object::Race { id: id("r") },
        TES3Object::Sound { id: id("s") },
        TES3Object::Skill { skill_id: 4 },
        TES3Object::MagicEffect { effect_id: 7 },
        TES3Object::Script { id: id("s") },
        TES3Object::Region { id: id("r") },
        TES3Object::Birthsign { id: id("b") },
        TES3Object::StartScript { id: id("s") },
        TES3Object::LandscapeTexture { index: 3 },
        TES3Object::Spell { id: id("s") },
        TES3Object::Static { id: id("s") },
        TES3Object::Door { id: id("d") },
        TES3Object::MiscItem { id: id("m") },
        TES3Object::Weapon { id: id("w") },
        TES3Object::Container { id: id("c") },
        TES3Object::Creature { id: id("c") },
        TES3Object::Bodypart { id: id("b") },
        TES3Object::Light { id: id("l") },
        TES3Object::Enchanting { id: id("e") },
        TES3Object::Npc { id: id("n") },
        TES3Object::Armor { id: id("a") },
        TES3Object::Clothing { id: id("c") },
        TES3Object::RepairItem { id: id("r") },
        TES3Object::Activator { id: id("a") },
        TES3Object::Apparatus { id: id("a") },
        TES3Object::Lockpick { id: id("l") },
        TES3Object::Probe { id: id("p") },
        TES3Object::Ingredient { id: id("i") },
        TES3Object::Book { id: id("b") },
        TES3Object::Alchemy { id: id("a") },
        TES3Object::LeveledItem { id: id("l") },
        TES3Object::LeveledCreature { id: id("l") },
        TES3Object::Cell { id: id("c") },
        TES3Object::SoundGen { id: id("s") },
        TES3Object::Dialogue { id: id("d") },
    ]
}

fn category_tag(o: &TES3Object) -> u32 {
    match o {
        TES3Object::Header => 0,
        TES3Object::GameSetting { .. } => 1,
        TES3Object::GlobalVariable { .. } => 2,
        TES3Object::Class { .. } => 3,
        TES3Object::Faction { .. } => 4,
        TES3Object::Race { .. } => 5,
        TES3Object::Sound { .. } => 6,
        TES3Object::Skill { .. } => 7,
        TES3Object::MagicEffect { .. } => 8,
        TES3Object::Script { .. } => 9,
        TES3Object::Region { .. } => 10,
        TES3Object::Birthsign { .. } => 11,
        TES3Object::StartScript { .. } => 12,
        TES3Object::LandscapeTexture { .. } => 13,
        TES3Object::Spell { .. } => 14,
        TES3Object::Static { .. } => 15,
        TES3Object::Door { .. } => 16,
        TES3Object::MiscItem { .. } => 17,
        TES3Object::Weapon { .. } => 18,
        TES3Object::Container { .. } => 19,
        TES3Object::Creature { .. } => 20,
        TES3Object::Bodypart { .. } => 21,
        TES3Object::Light { .. } => 22,
        TES3Object::Enchanting { .. } => 23,
        TES3Object::Npc { .. } => 24,
        TES3Object::Armor { .. } => 25,
        TES3Object::Clothing { .. } => 26,
        TES3Object::RepairItem { .. } => 27,
        TES3Object::Activator { .. } => 28,
        TES3Object::Apparatus { .. } => 29,
        TES3Object::Lockpick { .. } => 30,
        TES3Object::Probe { .. } => 31,
        TES3Object::Ingredient { .. } => 32,
        TES3Object::Book { .. } => 33,
        TES3Object::Alchemy { .. } => 34,
        TES3Object::LeveledItem { .. } => 35,
        TES3Object::LeveledCreature { .. } => 36,
        TES3Object::Cell { .. } => 37,
        TES3Object::Landscape => 37,
        TES3Object::PathGrid => 37,
        TES3Object::SoundGen { .. } => 38,
        TES3Object::Dialogue { .. } => 39,
        TES3Object::DialogueInfo { .. } => 39,
    }
}

#[test]
fn sort_objects_orders_all_categories_and_keeps_grouped_order() {
    // one sample of each category, presented in reverse category order,
    // with two records of the grouped dialogue category inserted in
    // reverse of their intended order: their keys tie, so stability must
    // keep them as given
    let mut objects = one_of_each_category();
    objects.reverse();
    objects.insert(0, TES3Object::DialogueInfo { id: "second".to_string() });
    objects.insert(0, TES3Object::DialogueInfo { id: "first".to_string() });
    let mut plugin = Plugin { objects };
    plugin.sort_objects();

    let categories: Vec<u32> = plugin.objects.iter().map(category_tag).collect();
    let mut sorted = categories.clone();
    sorted.sort();
    assert_eq!(sorted, categories);

    // within the grouped category every key ties, so the two infos keep
    // their insertion order
    let dialogue_ids: Vec<&str> = plugin
        .objects
        .iter()
        .filter_map(|o| match o {
            TES3Object::DialogueInfo { id } => Some(id.as_str()),
            _ => None,
        })
        .collect();
    assert_eq!(vec!["first", "second"], dialogue_ids);
}

#[test]
fn sort_objects_orders_ids_within_category() {
    let mut plugin = Plugin {
        objects: vec![
            TES3Object::Weapon { id: "sword".to_string() },
            TES3Object::Weapon { id: "axe".to_string() },
            TES3Object::Weapon { id: "bow".to_string() },
        ],
    };
    plugin.sort_objects();
    let ids: Vec<&str> = plugin
        .objects
        .iter()
        .map(|o| match o {
            TES3Object::Weapon { id } => id.as_str(),
            _ => panic!("unexpected record kind"),
        })
        .collect();
    assert_eq!(vec!["axe", "bow", "sword"], ids);
}

#[test]
fn sort_empty_and_single() {
    let mut plugin = Plugin { objects: Vec::new() };
    plugin.sort_objects();
    assert!(plugin.objects.is_empty());

    let mut indices = vec![0];
    let mut data = vec!["only"];
    apply_isort(&mut indices, &mut data);
    assert_eq!(vec!["only"], data);

    let mut indices = Vec::new();
    isort(&mut indices, &Vec::new());
    assert!(indices.is_empty());
}
