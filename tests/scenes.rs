use std::collections::HashMap;

use rpgrs::character::Character;
use rpgrs::common::Key;
use rpgrs::condition::Condition;
use rpgrs::encyclopedia::Encyclopedia;
use rpgrs::map::{EncodedMapLayer, TileMap};
use rpgrs::scene::Scene;
use rpgrs::sprite::Sprite;
use rpgrs::stats::{generate_stats, StatBlock};
use rpgrs::table::Table;

fn tower() -> TileMap {
    let mut sprite_code = HashMap::new();
    sprite_code.insert(0u64, Sprite::new_solid(' '));
    sprite_code.insert(1u64, Sprite::new(vec!['~', '-'], 2, 1));
    let layer = EncodedMapLayer { layer: vec![vec![1, 1, 1], vec![1, 0, 1]] };
    TileMap { dim: (3, 2), origin: (0, 0), layers: vec![layer], sprite_code }
}

#[test]
fn sprites_cycle_through_frames() {
    let s = Sprite::new(vec!['a', 'b', 'c'], 2, 1);
    assert_eq!(s.draw(0), 'b');
    assert_eq!(s.draw(1), 'b');
    assert_eq!(s.draw(2), 'c');
    assert_eq!(s.draw(4), 'a');
    assert_eq!(Sprite::new_solid('@').draw(99), '@');
}

#[test]
fn map_lookups() {
    let map = tower();
    assert!(EncodedMapLayer::new().layer.is_empty());
    assert_eq!(map.decode_sprite(0).unwrap().draw(0), ' ');
    assert!(map.decode_sprite(7).is_none());
    assert_eq!(map.sprite_at_loc(1, 1, 0).unwrap().draw(0), ' ');
    assert_eq!(map.sprite_at_loc(2, 0, 0).unwrap().draw(0), '-');
    assert!(map.sprite_at_loc(3, 0, 0).is_none());
    assert!(map.sprite_at_loc(0, 2, 0).is_none());
    assert!(map.sprite_at_loc(0, 0, 1).is_none());
}

#[test]
fn scene_messages_then_moves() {
    let mut scene = Scene::new(tower(), (5, 5));
    assert_eq!(scene.get_text().unwrap(), "So, here you are.");
    assert!(!scene.handle_input(Key::Up));
    assert_eq!(scene.focus, (5, 5));
    assert!(scene.get_text().is_none());
    scene.handle_input(Key::Up);
    assert_eq!(scene.focus, (5, 4));
    scene.handle_input(Key::Left);
    scene.handle_input(Key::Right);
    scene.handle_input(Key::Right);
    scene.handle_input(Key::Down);
    assert_eq!(scene.focus, (6, 5));
    let mut corner = Scene::new(tower(), (0, 0));
    corner.pop_text();
    corner.handle_input(Key::Left);
    corner.handle_input(Key::Up);
    assert_eq!(corner.focus, (0, 0));
}

#[test]
fn stat_blocks_are_copied() {
    let mut base_stats = Table::new();
    base_stats.insert(String::from("Strength"), 10);
    base_stats.insert(String::from("Stamina"), 12);
    let mut stats = Table::new();
    stats.insert(String::from("Offense"), String::from("+ Strength. Weapon.Power"));
    let mut en = HashMap::new();
    en.insert(0u64, StatBlock { id: 0, name: String::from("Standard"), base_stats, stats });
    let statblocks = Encyclopedia::new(en);
    let (bs, ds) = generate_stats(&statblocks, &0).unwrap();
    assert_eq!(bs.entries, vec![(String::from("Strength"), 10), (String::from("Stamina"), 12)]);
    assert_eq!(ds.get(&String::from("Offense")).unwrap(), "+ Strength. Weapon.Power");
    assert!(generate_stats(&statblocks, &1).is_none());
    assert_eq!(statblocks.get(&0).unwrap().get_stat(String::from("Offense")).unwrap(), "+ Strength. Weapon.Power");
    assert_eq!(statblocks.len(), 1);
    assert!(!statblocks.is_empty());
}

#[test]
fn conditions_are_not_taken_yet() {
    let mut c = Character::new(0, String::from("Mog"));
    let poison = Condition {
        name: String::from("Poison"),
        duration: None,
        removed_by: Vec::new(),
        repeat_effects: Vec::new(),
        repeat_hits: Vec::new(),
        mods: Table::new(),
        play_override: None,
        visual: None,
    };
    assert!(c.take_condition(&poison));
    assert!(c.conditions.is_empty());
}
