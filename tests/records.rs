use rpgrs::action::{Action, ActionMenu, CharacterAction, Scope};
use rpgrs::character::{Character, Pool};
use rpgrs::common::{Hit, HitAmt, IndexedOrLiteral, Target};
use rpgrs::effect::Effect;
use rpgrs::item::{create, equipment_mod, equipment_power, generate_equipment_set, EquipmentSlot, Item};
use rpgrs::party::Party;
use rpgrs::table::Table;

#[test]
fn character_new_test() {
    let mog = Character::new(0, String::from("Mog"));
    assert_eq!(mog.whoami(), (0, "Mog"));
    let (id, name) = (10, "Mog");
    let mog = Character::new(id, String::from(name));
    assert!(mog.matches(id));
    assert_eq!(mog.whoami(), (id, "Mog"));
}

#[test]
fn effect_new_test() {
    let effect = Effect::new(0, String::from("Potion"));
    println!(">>> Test effect: {:?}", effect);
    let (id, name) = (0, "Thingamajig");
    let effect = Effect::new(id, String::from(name));
    assert_eq!(effect.whoami(), (id, name));
}

#[test]
fn item_instance_test() {
    let empty: EquipmentSlot = None;
    let item: EquipmentSlot = Some(Item {
        id: 255,
        name: String::from("Debug Stick"),
        power: 1,
        strength_mod: -1,
        stamina_mod: -2,
        effect: IndexedOrLiteral::<Effect>::Index(2),
    });
    assert_eq!(equipment_power(&item), 1);
    assert_eq!(equipment_power(&empty), 0);
    assert_eq!(equipment_mod(&item, &String::from("Stamina")), -2);
    assert_eq!(equipment_mod(&empty, &String::from("Stamina")), 0);
    assert_eq!(equipment_mod(&item, &String::from("Strength")), -1);
    assert_eq!(equipment_mod(&empty, &String::from("Strength")), 0);
    assert_eq!(equipment_mod(&item, &String::from("Moxie")), 0);
    assert_eq!(equipment_mod(&empty, &String::from("Moxie")), 0);
}

#[test]
fn item_create_and_slots() {
    let spear = create(String::from("Spear"), 6, 0, 0);
    assert_eq!(spear.power, 6);
    assert_eq!(spear.name, "Spear");
    assert_eq!(equipment_power(&Some(spear)), 6);
    let set = generate_equipment_set();
    assert_eq!(set.entries.len(), 2);
    assert_eq!(set.entries[0].0, "Weapon");
    assert!(set.entries[0].1.is_none());
    assert_eq!(set.entries[1].0, "Shield");
}

#[test]
fn party_new_test() {
    let party = Party::new(String::from("Test"));
    assert_eq!(party.whoami(), (0, "Test"));
    assert_eq!(party.id, 0);
    assert_eq!(party.name, String::from("Test"));
    assert!(party.is_empty());
    assert_eq!(party.len(), 0);
    assert!(party.formation.is_empty());
    assert!(party.clocks.is_empty());
    assert!(party.items_iter().is_empty());
}

#[test]
fn party_add_remove_character_test() {
    let mut party = Party::new(String::from("Test"));
    let mog = Character::new(0, String::from("Mog"));
    party.add_character(mog);
    assert!(party.get_ch_by_pos(0).is_some());
    assert_eq!(party.len(), 1);
    assert_eq!(party.formation.len(), 1);
    assert_eq!(party.clocks.len(), 1);
    assert_eq!(*party.formation.get(0).unwrap(), 0);
    let mog = party.remove_character(0).unwrap();
    assert_eq!(mog.whoami(), (0, "Mog"));
    assert!(party.get_ch_by_pos(0).is_none());
    assert!(party.is_empty());
    assert!(party.formation.is_empty());
    assert!(party.clocks.is_empty());
}

#[test]
fn party_remove_keeps_formation() {
    let mut party = Party::new(String::from("Test"));
    party.add_character(Character::new(1, String::from("A")));
    party.add_character(Character::new(2, String::from("B")));
    party.add_character(Character::new(3, String::from("C")));
    assert!(party.remove_character(9).is_none());
    let b = party.remove_character(2).unwrap();
    assert_eq!(b.whoami(), (2, "B"));
    assert_eq!(party.len(), 2);
    assert_eq!(party.get_ch_by_pos(0).unwrap().whoami(), (1, "A"));
    assert_eq!(party.get_ch_by_pos(1).unwrap().whoami(), (3, "C"));
    assert!(party.get_ch_by_pos(2).is_none());
}

fn test_action(message: &str) -> Action {
    Action {
        id: 0,
        name: String::from("TestAction"),
        costs: Table::new(),
        effects: Vec::new(),
        scope: Scope::All,
        message: String::from(message),
    }
}

#[test]
fn get_message_test() {
    let act = test_action("TEST {:actor} {:targets} TEST");
    let actor = "A";
    let mut targets: Vec<String> = vec![String::from("1")];
    assert_eq!(act.get_message(actor, &targets), "TEST A 1 TEST");
    targets.push(String::from("2"));
    assert_eq!(act.get_message(actor, &targets), "TEST A 1 and 2 TEST");
    targets.push(String::from("3"));
    assert_eq!(act.get_message(actor, &targets), "TEST A 1, 2, and 3 TEST");
}

#[test]
fn message_with_four_targets_and_repeats() {
    let act = test_action("{:actor}: {:targets}; {:actor} again");
    let targets: Vec<String> = vec![String::from("w"), String::from("x"), String::from("y"), String::from("z")];
    assert_eq!(act.get_message("Mog", &targets), "Mog: w, x, y, and z; Mog again");
    let none: Vec<String> = Vec::new();
    assert_eq!(act.get_message("Mog", &none), "Mog: ; Mog again");
}

#[test]
fn action_defaults() {
    assert_eq!(Action::default_scope(), Scope::Enemy);
    assert_eq!(Action::default_message(), "{:actor} did something to {:target}.");
    assert_eq!(Effect::default_msg(), "{:effect} was used on {:target}, and something happened maybe!");
    assert_eq!(test_action("m").copy_name(), "TestAction");
}

#[test]
fn action_menu_prompts() {
    let mut actions = std::collections::HashMap::new();
    let mut attack = test_action("hits");
    attack.name = String::from("Attack");
    actions.insert(0u64, attack);
    let act_en = rpgrs::encyclopedia::Encyclopedia::new(actions);
    let magic_menu = ActionMenu { prompt: String::from("Magic"), options: vec![CharacterAction::Index(0)] };
    let am = ActionMenu {
        prompt: String::from("ROOT"),
        options: vec![CharacterAction::Index(0), CharacterAction::Menu(magic_menu), CharacterAction::UseItem],
    };
    assert_eq!(am.get_prompt(), "ROOT");
    let prompts = am.get_prompts(&act_en).unwrap();
    assert_eq!(prompts, vec!["Attack", "Magic", "Item"]);
    assert!(am.get_option(2).is_some());
    assert!(am.get_option(3).is_none());
    let broken = ActionMenu { prompt: String::from("X"), options: vec![CharacterAction::Index(7)] };
    assert!(broken.get_prompts(&act_en).is_none());
    let root = ActionMenu::new();
    assert_eq!(root.get_prompt(), "ROOT");
    assert_eq!(root.len(), 2);
}

#[test]
fn pools_and_costs() {
    let mut c = Character::new(1, String::from("Terra"));
    assert_eq!(c.get_pool_vals(String::from("HP")), Some((10, 10)));
    assert_eq!(c.get_pool_vals(String::from("MP")), Some((5, 5)));
    assert_eq!(c.get_pool_vals(String::from("ZZ")), None);
    assert_eq!(c.take_hit(&String::from("HP"), 4), 4);
    assert_eq!(c.get_pool_vals(String::from("HP")), Some((6, 10)));
    assert_eq!(c.take_hit(&String::from("HP"), -20), -20);
    assert_eq!(c.get_pool_vals(String::from("HP")), Some((10, 10)));
    assert_eq!(c.take_hit(&String::from("HP"), 25), 25);
    assert_eq!(c.get_pool_vals(String::from("HP")), Some((0, 10)));
    assert!(c.is_down());
    assert_eq!(c.take_hit(&String::from("ZZ"), 3), 0);
    let mut costs = Table::new();
    costs.insert(String::from("MP"), 3u32);
    assert!(c.can_afford_costs(&costs));
    c.spend_costs(costs);
    assert_eq!(c.get_pool_vals(String::from("MP")), Some((2, 5)));
    let mut too_much = Table::new();
    too_much.insert(String::from("MP"), 3u32);
    assert!(!c.can_afford_costs(&too_much));
    let mut unknown = Table::new();
    unknown.insert(String::from("PP"), 1u32);
    assert!(!c.has_pools_for(&unknown));
    let _ = Pool { name: String::from("PP"), current: 0, maximum: 0 };
}

#[test]
fn hits_of_constants_and_formulas() {
    let c = Character::new(0, String::from("Test Character"));
    let t = Character::new(1, String::from("Test Target Character"));
    let statblocks = rpgrs::encyclopedia::Encyclopedia::new(std::collections::HashMap::new());
    let mut effect = Effect::new(0, String::from("Test Effect"));
    effect.hits = vec![
        Hit { pool: String::from("HP"), amount: HitAmt::Constant(1) },
        Hit { pool: String::from("HP"), amount: HitAmt::Formula(String::from("1")) },
    ];
    let hits = effect.actor_affect_target(&c, &t, &statblocks).unwrap();
    assert_eq!(effect.hits[0].pool, hits[0].pool);
    assert_eq!(effect.hits[1].pool, hits[1].pool);
    assert_eq!(hits[0].amount, HitAmt::Constant(1));
    assert_eq!(hits[1].amount, HitAmt::Constant(1));
}

fn named_action(id: u64, name: &str) -> Action {
    let mut a = test_action("{:actor} uses it on {:targets}.");
    a.id = id;
    a.name = String::from(name);
    a
}

fn mog_and_actions() -> (Character, rpgrs::encyclopedia::ActionEncyclopedia) {
    let mut en = std::collections::HashMap::new();
    en.insert(0u64, named_action(0, "Attack"));
    en.insert(11u64, named_action(11, "Water Harmony"));
    en.insert(12u64, named_action(12, "Desert Lullaby"));
    en.insert(13u64, named_action(13, "Fire"));
    let dance = ActionMenu { prompt: String::from("Dance"), options: vec![CharacterAction::Index(11), CharacterAction::Index(12)] };
    let magic = ActionMenu { prompt: String::from("Magic"), options: vec![CharacterAction::Index(13)] };
    let mut mog = Character::new(10, String::from("Mog"));
    mog.actions = ActionMenu {
        prompt: String::from("ROOT"),
        options: vec![CharacterAction::Index(0), CharacterAction::Menu(dance), CharacterAction::Menu(magic), CharacterAction::UseItem],
    };
    (mog, rpgrs::encyclopedia::Encyclopedia::new(en))
}

#[test]
fn get_base_stat_test() {
    let mog = Character::new(10, String::from("Mog"));
    assert!(mog.get_base_stat(String::from("Strength")).is_some());
    assert!(mog.get_base_stat(String::from("Moxie")).is_none());
}

#[test]
fn get_stat_test() {
    let mut stats = Table::new();
    stats.insert(String::from("Strength"), String::from("+ .AddMod * .MultMod ."));
    stats.insert(String::from("Offense"), String::from("+ .AddMod * .MultMod + Weapon.Power Strength."));
    let mut en = std::collections::HashMap::new();
    en.insert(0u64, rpgrs::stats::StatBlock { id: 0, name: String::from("Standard"), base_stats: Table::new(), stats });
    let statblocks = rpgrs::encyclopedia::Encyclopedia::new(en);
    let mog = Character::new(10, String::from("Mog"));
    assert!(mog.get_stat(String::from("Strength"), &statblocks).is_some());
    assert!(mog.get_stat(String::from("Offense"), &statblocks).is_some());
    assert!(mog.get_stat(String::from("Moxie"), &statblocks).is_none());
}

#[test]
fn get_action_options_test() {
    let (mog, actions) = mog_and_actions();
    let mut selections: Vec<usize> = Vec::new();
    let mog_menus = mog.get_action_options(&selections, &actions).unwrap();
    let mut expected_menus = vec![vec!["Attack", "Dance", "Magic", "Item"]];
    assert_eq!(mog_menus, expected_menus);
    selections.push(1);
    expected_menus.push(vec!["Water Harmony", "Desert Lullaby"]);
    let mog_menus = mog.get_action_options(&selections, &actions).unwrap();
    assert_eq!(mog_menus, expected_menus);
}

#[test]
fn get_action_selection_test() {
    let (mog, actions) = mog_and_actions();
    let selections: Vec<usize> = vec![1, 1];
    let selected_action = mog.get_action_selection(&selections, &actions).unwrap();
    assert_eq!(selected_action.copy_name(), "Desert Lullaby");
    let selections: Vec<usize> = vec![1, 0];
    let selected_action = mog.get_action_selection(&selections, &actions).unwrap();
    assert_eq!(selected_action.copy_name(), "Water Harmony");
}

#[test]
fn target_hits_clamp() {
    let mut c = Character::new(3, String::from("Umaro"));
    assert_eq!(c.hit_pool(&String::from("HP"), 3), 3);
    assert_eq!(c.get_pool_vals(String::from("HP")), Some((7, 10)));
    assert_eq!(c.hit_pool(&String::from("HP"), 30), 30);
    assert_eq!(c.get_pool_vals(String::from("HP")), Some((0, 10)));
    assert_eq!(c.hit_pool(&String::from("HP"), 1), 1);
    assert_eq!(c.get_pool_vals(String::from("HP")), Some((0, 10)));
    assert_eq!(c.hit_pool(&String::from("MP"), -9), -9);
    assert_eq!(c.get_pool_vals(String::from("MP")), Some((5, 5)));
}
