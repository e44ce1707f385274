use std::collections::{HashMap, VecDeque};

use rpgrs::action::{Action, ActionMenu, CharacterAction, Scope};
use rpgrs::battle::{Battle, PlayerIndex, TargetedEffect, TargetedHit};
use rpgrs::character::Character;
use rpgrs::common::{Hit, HitAmt, IndexedOrLiteral, Key};
use rpgrs::condition::{Condition, TargetCondition};
use rpgrs::effect::Effect;
use rpgrs::encyclopedia::{ActionEncyclopedia, ConditionEncyclopedia, EffectEncyclopedia, Encyclopedia, StatBlockEncyclopedia};
use rpgrs::error::BattleError;
use rpgrs::party::Party;
use rpgrs::stats::StatBlock;
use rpgrs::table::Table;

fn statblocks() -> StatBlockEncyclopedia {
    let mut stats = Table::new();
    stats.insert(String::from("Speed"), String::from("."));
    stats.insert(String::from("Offense"), String::from("+ .AddMod * .MultMod + Weapon.Power ."));
    let mut en = HashMap::new();
    en.insert(0u64, StatBlock { id: 0, name: String::from("Standard"), base_stats: Table::new(), stats });
    Encyclopedia::new(en)
}

fn strike(damage: i32, scope: Scope) -> Action {
    let mut effect = Effect::new(1, String::from("Strike"));
    effect.hits.push(Hit { pool: String::from("HP"), amount: HitAmt::Constant(damage) });
    Action {
        id: 0,
        name: String::from("Attack"),
        costs: Table::new(),
        effects: vec![IndexedOrLiteral::Literal(effect)],
        scope,
        message: String::from("{:actor} attacks {:targets}!"),
    }
}

fn action_enc() -> ActionEncyclopedia {
    let mut en = HashMap::new();
    en.insert(0u64, strike(1, Scope::Enemy));
    Encyclopedia::new(en)
}

fn effect_enc() -> EffectEncyclopedia {
    let mut effect = Effect::new(735730, String::from("Poke"));
    effect.hits.push(Hit { pool: String::from("HP"), amount: HitAmt::Formula(String::from("+ 1 $Offense")) });
    let mut en = HashMap::new();
    en.insert(735730u64, effect);
    Encyclopedia::new(en)
}

fn condition_enc() -> ConditionEncyclopedia {
    Encyclopedia::new(HashMap::new())
}

fn get_test_parties(num_allies: usize, num_baddies: usize) -> (Party, Party) {
    let mut allies = Party::new(String::from("Allies"));
    let mut baddies = Party::new(String::from("Baddies"));
    for i in 0..num_allies {
        allies.add_character(Character::new(i as u64, format!("Ally {}", i)));
    }
    for i in 0..num_baddies {
        baddies.add_character(Character::new(100 + i as u64, format!("Baddy {}", i)));
    }
    (allies, baddies)
}

fn battle_of(allies: Party, baddies: Party) -> Battle {
    Battle::new(allies, baddies, action_enc(), effect_enc(), condition_enc(), statblocks())
}

fn get_test_battle(num_allies: usize, num_baddies: usize) -> Battle {
    let (allies, baddies) = get_test_parties(num_allies, num_baddies);
    battle_of(allies, baddies)
}

fn with_menu(mut c: Character, options: Vec<CharacterAction>) -> Character {
    c.actions = ActionMenu { prompt: String::from("ROOT"), options };
    c
}

#[test]
fn tests_new_test() {
    let mut battle = get_test_battle(0, 0);
    assert!(battle.get_character(&None).is_none());
    assert!(battle.get_top_menu_options().is_none());
    assert!(battle.get_text().is_some());
    assert!(battle.pop_text().is_some());
    assert!(battle.get_text().is_none());
    assert!(battle.pop_text().is_none());
    assert!(battle.get_current_npc().is_none());
    assert!(battle.get_current_pc().is_none());
    assert!(battle.get_top_menu_options().is_none());
    assert!(battle.get_selected_action().is_none());
    assert!(battle.get_target_names_of(&battle.targets).unwrap().is_empty());
}

#[test]
fn get_character_test() {
    let battle = get_test_battle(2, 2);
    assert!(battle.get_character(&Some(PlayerIndex::Ally(0))).is_some());
    assert!(battle.get_character(&Some(PlayerIndex::Ally(1))).is_some());
    assert!(battle.get_character(&Some(PlayerIndex::Ally(2))).is_none());
    assert!(battle.get_character(&Some(PlayerIndex::Baddy(0))).is_some());
    assert!(battle.get_character(&Some(PlayerIndex::Baddy(1))).is_some());
    assert!(battle.get_character(&Some(PlayerIndex::Baddy(2))).is_none());
}

#[test]
fn turn_start_test() {
    let mut battle = get_test_battle(1, 1);
    while battle.pop_text().is_some() {}
    battle.current_pc_idx = Some(PlayerIndex::Ally(0));
    battle.selections.push(0);
    assert!(battle.get_current_pc().is_some());
    assert!(battle.get_top_menu_options().is_some());
    battle.current_npc_idx = Some(PlayerIndex::Baddy(0));
    assert!(battle.get_current_npc().is_some());
}

#[test]
fn next_turn_test() {
    let mut battle = get_test_battle(1, 1);
    let turn = battle.next_turn().unwrap();
    assert!(battle.get_current_npc().is_some() || battle.get_current_pc().is_some());
    assert_eq!(turn, Some(PlayerIndex::Ally(0)));
    assert!(battle.is_pc_turn(&PlayerIndex::Ally(0)));
    assert_eq!(battle.selections, vec![0]);
}

#[test]
fn handle_effect_test() {
    let (allies, baddies) = get_test_parties(2, 2);
    let mut battle = battle_of(allies, baddies);
    let effect = battle.effect_enc.get(&735730).unwrap();
    let hits = rpgrs::common::copy_hits(&effect.hits);
    battle.effects.push_back(TargetedEffect { actor_pi: PlayerIndex::Ally(0), target_pi: PlayerIndex::Baddy(0), hits });
    battle.handle_effect().unwrap();
    assert!(!battle.hits.is_empty());
    assert_eq!(battle.hits[0].amount, 21);
    assert!(battle.effects.is_empty());
}

#[test]
fn handle_hit_test() {
    let (allies, baddies) = get_test_parties(2, 2);
    let mut battle = battle_of(allies, baddies);
    battle.text = VecDeque::new();
    battle.hits.push_back(TargetedHit { target_pi: PlayerIndex::Baddy(0), pool: String::from("HP"), amount: 5i32 });
    battle.handle_hit().unwrap();
    assert!(!battle.text.is_empty());
    assert_eq!(battle.text[0], "Baddy 0 took 5 HP damage!");
    assert_eq!(battle.baddies.get_ch_by_pos(0).unwrap().get_pool_vals(String::from("HP")), Some((5, 10)));
}

#[test]
fn constant_hits_clamp_and_report() {
    let mut battle = get_test_battle(1, 1);
    battle.text = VecDeque::new();
    for amount in [0, -3, 4, 20, -30] {
        battle.hits.push_back(TargetedHit { target_pi: PlayerIndex::Ally(0), pool: String::from("HP"), amount });
    }
    battle.handle_hit().unwrap();
    assert_eq!(battle.text[0], "No effect on Ally 0...");
    battle.handle_hit().unwrap();
    assert_eq!(battle.text[1], "Ally 0 was healed for 3 HP!");
    assert_eq!(battle.allies.get_ch_by_pos(0).unwrap().get_pool_vals(String::from("HP")), Some((10, 10)));
    battle.handle_hit().unwrap();
    assert_eq!(battle.text[2], "Ally 0 took 4 HP damage!");
    assert_eq!(battle.allies.get_ch_by_pos(0).unwrap().get_pool_vals(String::from("HP")), Some((6, 10)));
    battle.handle_hit().unwrap();
    assert_eq!(battle.allies.get_ch_by_pos(0).unwrap().get_pool_vals(String::from("HP")), Some((0, 10)));
    assert!(battle.is_player_down(&PlayerIndex::Ally(0)));
    battle.handle_hit().unwrap();
    assert_eq!(battle.text[4], "Ally 0 was healed for 30 HP!");
    assert_eq!(battle.allies.get_ch_by_pos(0).unwrap().get_pool_vals(String::from("HP")), Some((10, 10)));
}

#[test]
fn hit_errors() {
    let mut battle = get_test_battle(1, 1);
    battle.hits.push_back(TargetedHit { target_pi: PlayerIndex::Baddy(0), pool: String::from("PP"), amount: 1 });
    assert_eq!(battle.handle_hit(), Err(BattleError::MissingPool));
    let mut battle = get_test_battle(1, 1);
    battle.hits.push_back(TargetedHit { target_pi: PlayerIndex::Baddy(4), pool: String::from("HP"), amount: 1 });
    assert_eq!(battle.handle_hit(), Err(BattleError::MissingCharacter));
}

fn drain(battle: &mut Battle) -> Result<bool, BattleError> {
    let mut ended = false;
    let mut guard = 0;
    while battle.get_text().is_some() && guard < 100 {
        ended = battle.handle_input(Key::Char(' '))?;
        guard += 1;
    }
    Ok(ended)
}

#[test]
fn one_blow_wins_the_battle() {
    let mut allies = Party::new(String::from("Allies"));
    allies.add_character(with_menu(Character::new(1, String::from("A")), vec![CharacterAction::Literal(strike(10, Scope::Enemy))]));
    let mut baddies = Party::new(String::from("Baddies"));
    baddies.add_character(Character::new(2, String::from("B")));
    let mut battle = battle_of(allies, baddies);
    assert_eq!(battle.handle_input(Key::Char('\n')), Ok(false));
    assert!(battle.is_pc_turn(&PlayerIndex::Ally(0)));
    assert_eq!(battle.get_text().unwrap(), "It's A's turn!");
    assert_eq!(battle.handle_input(Key::Char('\n')), Ok(false));
    assert_eq!(battle.get_top_menu_options().unwrap(), vec!["Attack"]);
    assert_eq!(battle.handle_input(Key::Char('\n')), Ok(false));
    assert_eq!(battle.targets, vec![PlayerIndex::Baddy(0)]);
    assert_eq!(battle.handle_input(Key::Char('\n')), Ok(false));
    assert_eq!(battle.get_text().unwrap(), "A attacks B!");
    drain(&mut battle).unwrap();
    assert_eq!(battle.baddies.get_ch_by_pos(0).unwrap().get_pool_vals(String::from("HP")), Some((0, 10)));
    assert!(battle.is_player_down(&PlayerIndex::Baddy(0)));
    assert!(battle.ended);
    assert_eq!(battle.handle_input(Key::Char('\n')), Ok(true));
}

#[test]
fn the_victory_is_announced() {
    let mut allies = Party::new(String::from("Allies"));
    allies.add_character(with_menu(Character::new(1, String::from("A")), vec![CharacterAction::Literal(strike(10, Scope::Enemy))]));
    let mut baddies = Party::new(String::from("Baddies"));
    baddies.add_character(Character::new(2, String::from("B")));
    let mut battle = battle_of(allies, baddies);
    for _ in 0..4 {
        battle.handle_input(Key::Char('\n')).unwrap();
    }
    battle.handle_input(Key::Char('\n')).unwrap();
    assert_eq!(battle.get_text().unwrap(), "B took 10 HP damage!");
    battle.handle_input(Key::Char('\n')).unwrap();
    assert!(battle.ended);
    assert_eq!(battle.get_text().unwrap(), "A winner is you!");
}

#[test]
fn unaffordable_action_is_refused() {
    let mut costly = strike(1, Scope::Enemy);
    costly.costs.insert(String::from("MP"), 5);
    let mut mage = with_menu(Character::new(1, String::from("A")), vec![CharacterAction::Literal(costly)]);
    mage.pools.entries[1].1.current = 3;
    mage.pools.entries[1].1.maximum = 10;
    let mut allies = Party::new(String::from("Allies"));
    allies.add_character(mage);
    let (_, baddies) = get_test_parties(0, 1);
    let mut battle = battle_of(allies, baddies);
    battle.handle_input(Key::Char('\n')).unwrap();
    battle.handle_input(Key::Char('\n')).unwrap();
    battle.handle_input(Key::Char('\n')).unwrap();
    assert!(battle.targets.is_empty());
    assert_eq!(battle.get_text().unwrap(), "Can't afford that action");
    assert_eq!(battle.allies.get_ch_by_pos(0).unwrap().get_pool_vals(String::from("MP")), Some((3, 10)));
}

#[test]
fn costs_are_paid_on_confirmation() {
    let mut costly = strike(1, Scope::Enemy);
    costly.costs.insert(String::from("MP"), 2);
    let allies_char = with_menu(Character::new(1, String::from("A")), vec![CharacterAction::Literal(costly)]);
    let mut allies = Party::new(String::from("Allies"));
    allies.add_character(allies_char);
    let (_, baddies) = get_test_parties(0, 1);
    let mut battle = battle_of(allies, baddies);
    for _ in 0..3 {
        battle.handle_input(Key::Char('\n')).unwrap();
    }
    assert_eq!(battle.allies.get_ch_by_pos(0).unwrap().get_pool_vals(String::from("MP")), Some((5, 5)));
    battle.handle_input(Key::Char('\n')).unwrap();
    assert_eq!(battle.allies.get_ch_by_pos(0).unwrap().get_pool_vals(String::from("MP")), Some((3, 5)));
}

#[test]
fn missing_cost_pool_is_an_error() {
    let mut costly = strike(1, Scope::Enemy);
    costly.costs.insert(String::from("PP"), 1);
    let mut allies = Party::new(String::from("Allies"));
    allies.add_character(with_menu(Character::new(1, String::from("A")), vec![CharacterAction::Literal(costly)]));
    let (_, baddies) = get_test_parties(0, 1);
    let mut battle = battle_of(allies, baddies);
    battle.handle_input(Key::Char('\n')).unwrap();
    battle.handle_input(Key::Char('\n')).unwrap();
    assert_eq!(battle.handle_input(Key::Char('\n')), Err(BattleError::MissingPool));
}

#[test]
fn unsupported_scope_is_an_error() {
    let mut allies = Party::new(String::from("Allies"));
    allies.add_character(with_menu(Character::new(1, String::from("A")), vec![CharacterAction::Literal(strike(1, Scope::Me))]));
    let (_, baddies) = get_test_parties(0, 1);
    let mut battle = battle_of(allies, baddies);
    battle.handle_input(Key::Char('\n')).unwrap();
    battle.handle_input(Key::Char('\n')).unwrap();
    assert_eq!(battle.handle_input(Key::Char('\n')), Err(BattleError::UnsupportedScope));
    assert_eq!(battle.begin_targeting(Scope::NoTarget), Err(BattleError::UnsupportedScope));
}

#[test]
fn side_scopes_skip_the_fallen() {
    let (allies, mut baddies) = get_test_parties(1, 3);
    baddies.get_mut_ch_by_pos(0).unwrap().take_hit(&String::from("HP"), 10);
    baddies.get_mut_ch_by_pos(2).unwrap().take_hit(&String::from("HP"), 10);
    let mut battle = battle_of(allies, baddies);
    assert_eq!(battle.begin_targeting(Scope::Enemies), Ok(vec![PlayerIndex::Baddy(1)]));
    assert_eq!(battle.begin_targeting(Scope::Enemy), Ok(vec![PlayerIndex::Baddy(1)]));
    assert_eq!(battle.begin_targeting(Scope::All), Ok(vec![PlayerIndex::Baddy(1), PlayerIndex::Ally(0)]));
    assert_eq!(battle.get_random_targets(Scope::Allies), vec![PlayerIndex::Baddy(1)]);
    assert_eq!(battle.get_random_targets(Scope::Ally), vec![PlayerIndex::Baddy(1)]);
    battle.text = VecDeque::new();
    battle.hits.push_back(TargetedHit { target_pi: PlayerIndex::Baddy(0), pool: String::from("HP"), amount: 4 });
    assert_eq!(battle.handle_hit(), Ok(()));
    assert_eq!(battle.baddies.get_ch_by_pos(0).unwrap().get_pool_vals(String::from("HP")), Some((0, 10)));
}

#[test]
fn menu_selection_wraps() {
    let options = vec![
        CharacterAction::Literal(strike(1, Scope::Enemy)),
        CharacterAction::Literal(strike(2, Scope::Enemy)),
        CharacterAction::Literal(strike(3, Scope::Enemy)),
        CharacterAction::UseItem,
    ];
    let mut allies = Party::new(String::from("Allies"));
    allies.add_character(with_menu(Character::new(1, String::from("A")), options));
    let (_, baddies) = get_test_parties(0, 1);
    let mut battle = battle_of(allies, baddies);
    battle.handle_input(Key::Char('\n')).unwrap();
    battle.handle_input(Key::Char('\n')).unwrap();
    assert_eq!(battle.selections, vec![0]);
    battle.handle_input(Key::Up).unwrap();
    assert_eq!(battle.selections, vec![3]);
    battle.handle_input(Key::Down).unwrap();
    assert_eq!(battle.selections, vec![0]);
    battle.handle_input(Key::Down).unwrap();
    assert_eq!(battle.selections, vec![1]);
    battle.handle_input(Key::Char('3')).unwrap();
    assert_eq!(battle.selections, vec![2]);
    assert_eq!(battle.targets, vec![PlayerIndex::Baddy(0)]);
    battle.handle_input(Key::Esc).unwrap();
    assert!(battle.targets.is_empty());
}

#[test]
fn nested_menus_and_target_cycling() {
    let magic = ActionMenu { prompt: String::from("Magic"), options: vec![CharacterAction::Literal(strike(2, Scope::Enemy)), CharacterAction::Index(0)] };
    let a = with_menu(Character::new(1, String::from("A")), vec![CharacterAction::Index(0), CharacterAction::Menu(magic)]);
    let mut allies = Party::new(String::from("Allies"));
    allies.add_character(a);
    let (_, baddies) = get_test_parties(0, 3);
    let mut battle = battle_of(allies, baddies);
    battle.handle_input(Key::Char('\n')).unwrap();
    battle.handle_input(Key::Char('\n')).unwrap();
    battle.handle_input(Key::Char('2')).unwrap();
    assert_eq!(battle.selections, vec![1, 0]);
    let (menus, path) = battle.get_menu_selections();
    assert_eq!(path, vec![1, 0]);
    assert_eq!(menus.unwrap(), vec![vec!["Attack", "Magic"], vec!["Attack", "Attack"]]);
    battle.handle_input(Key::Esc).unwrap();
    assert_eq!(battle.selections, vec![1]);
    battle.handle_input(Key::Char('\n')).unwrap();
    assert_eq!(battle.selections, vec![1, 0]);
    battle.handle_input(Key::Char('\n')).unwrap();
    assert_eq!(battle.targets, vec![PlayerIndex::Baddy(0)]);
    battle.handle_input(Key::Left).unwrap();
    assert_eq!(battle.targets, vec![PlayerIndex::Baddy(2)]);
    battle.handle_input(Key::Right).unwrap();
    battle.handle_input(Key::Right).unwrap();
    assert_eq!(battle.targets, vec![PlayerIndex::Baddy(1)]);
    battle.handle_input(Key::Char('\n')).unwrap();
    assert_eq!(battle.get_text().unwrap(), "A attacks Baddy 1!");
}

#[test]
fn selection_resolves_the_same_twice() {
    let magic = ActionMenu { prompt: String::from("Magic"), options: vec![CharacterAction::Literal(strike(2, Scope::Enemy))] };
    let a = with_menu(Character::new(1, String::from("A")), vec![CharacterAction::UseItem, CharacterAction::Menu(magic)]);
    let enc = action_enc();
    let first = a.get_action_selection(&vec![1, 0], &enc).unwrap();
    let second = a.get_action_selection(&vec![1, 0], &enc).unwrap();
    assert_eq!(first, second);
    assert!(a.get_action_selection(&vec![0], &enc).is_none());
    assert!(a.get_action_selection(&vec![1], &enc).is_none());
    assert!(a.get_action_options(&vec![0], &enc).is_none());
}

#[test]
fn equal_speeds_take_turns_in_formation_order() {
    let sb = statblocks();
    let conditions = condition_enc();
    let mut party = Party::new(String::from("Test"));
    party.add_character(Character::new(0, String::from("Mog")));
    party.add_character(Character::new(1, String::from("Gau")));
    assert_eq!(party.get_ready_ch_pos(), None);
    party.increment_clocks(u16::MAX, &conditions, &sb).unwrap();
    assert_eq!(party.get_ready_ch_pos(), Some(0));
    assert_eq!(party.get_ready_ch_pos(), Some(1));
    assert_eq!(party.get_ready_ch_pos(), None);
    party.get_mut_ch_by_pos(0).unwrap().take_hit(&String::from("HP"), 10);
    party.increment_clocks(u16::MAX, &conditions, &sb).unwrap();
    assert_eq!(party.clocks, vec![0, u16::MAX]);
    assert_eq!(party.get_ready_ch_pos(), Some(1));
    assert_eq!(party.get_ready_ch_pos(), None);
}

#[test]
fn clocks_test() {
    let mut party = Party::new(String::from("Test"));
    party.add_character(Character::new(0, String::from("Mog")));
    assert_eq!(party.get_ready_ch_pos(), None);
    party.increment_clocks(u16::MAX, &condition_enc(), &statblocks()).unwrap();
    assert!(matches!(party.get_ready_ch_pos(), Some(_)));
}

#[test]
fn conditions_age_and_missing_ones_fail() {
    let mut c = Character::new(0, String::from("Mog"));
    c.conditions.push(TargetCondition { condition_id: 5, duration: 1, repeat_effect_countdowns: vec![3], repeat_hit_countdowns: vec![1, 9] });
    assert_eq!(c.experience_conditions(2, &condition_enc()), Err(BattleError::MissingCondition(5)));
    let mut en = HashMap::new();
    en.insert(5u64, Condition {
        name: String::from("Poison"),
        duration: Some(10),
        removed_by: Vec::new(),
        repeat_effects: vec![rpgrs::condition::Repeat { rep: IndexedOrLiteral::Index(1), period: 4, number: None }],
        repeat_hits: vec![rpgrs::condition::Repeat { rep: Hit { pool: String::from("HP"), amount: HitAmt::Constant(1) }, period: 2, number: None }],
        mods: Table::new(),
        play_override: None,
        visual: None,
    });
    let conditions: ConditionEncyclopedia = Encyclopedia::new(en);
    assert_eq!(c.dclock(2, &conditions, &statblocks()), Ok(20));
    assert_eq!(c.conditions[0].duration, 3);
    assert_eq!(c.conditions[0].repeat_effect_countdowns, vec![1]);
    assert_eq!(c.conditions[0].repeat_hit_countdowns, vec![2, 9]);
}

#[test]
fn enemy_turns_play_at_once() {
    let (allies, baddies) = get_test_parties(1, 1);
    let mut battle = battle_of(allies, baddies);
    battle.allies.get_mut_ch_by_pos(0).unwrap().take_hit(&String::from("HP"), 10);
    battle.handle_input(Key::Char('\n')).unwrap();
    assert!(battle.current_npc_idx.is_none());
    assert_eq!(battle.get_text().unwrap(), "LOooOoSER!");
    assert!(battle.ended);
}

#[test]
fn an_enemy_attacks() {
    let (allies, baddies) = get_test_parties(1, 1);
    let mut battle = battle_of(allies, baddies);
    battle.text = VecDeque::new();
    battle.current_npc_idx = Some(PlayerIndex::Baddy(0));
    battle.play_npc_action().unwrap();
    assert!(battle.current_npc_idx.is_none());
    if !battle.effects.is_empty() {
        assert_eq!(battle.effects[0].target_pi, PlayerIndex::Ally(0));
        assert_eq!(battle.get_text().unwrap(), "Baddy 0 attacks Ally 0!");
    }
}

#[test]
fn missing_effect_is_an_error() {
    let mut broken = strike(1, Scope::Enemy);
    broken.effects = vec![IndexedOrLiteral::Index(42)];
    let mut allies = Party::new(String::from("Allies"));
    allies.add_character(with_menu(Character::new(1, String::from("A")), vec![CharacterAction::Literal(broken)]));
    let (_, baddies) = get_test_parties(0, 1);
    let mut battle = battle_of(allies, baddies);
    for _ in 0..3 {
        battle.handle_input(Key::Char('\n')).unwrap();
    }
    assert_eq!(battle.handle_input(Key::Char('\n')), Err(BattleError::MissingEffect(42)));
}

#[test]
fn use_action_on_pays_and_resolves() {
    let mut mog = Character::new(0, String::from("Mog"));
    let rat = Character::new(102, String::from("Rat"));
    let mut act = strike(1, Scope::Enemy);
    act.costs.insert(String::from("MP"), 1);
    act.effects.push(IndexedOrLiteral::Index(735730));
    let hits = mog.use_action_on(&act, &rat, &effect_enc(), &statblocks()).unwrap();
    assert_eq!(hits.len(), 2);
    assert_eq!(hits[0].amount, HitAmt::Constant(1));
    assert_eq!(hits[1].amount, HitAmt::Constant(21));
    assert_eq!(mog.get_pool_vals(String::from("MP")), Some((4, 5)));
}

#[test]
fn missing_action_is_an_error() {
    let mut allies = Party::new(String::from("Allies"));
    allies.add_character(with_menu(Character::new(1, String::from("A")), vec![CharacterAction::Index(99)]));
    let (_, baddies) = get_test_parties(0, 1);
    let mut battle = battle_of(allies, baddies);
    battle.text = VecDeque::new();
    battle.current_pc_idx = Some(PlayerIndex::Ally(0));
    battle.selections.push(0);
    assert!(battle.get_top_menu_options().is_none());
    assert_eq!(battle.next_menu(), Err(BattleError::MissingAction(99)));
    assert_eq!(battle.selections, vec![0]);
}

#[test]
fn a_menu_naming_a_missing_action_is_an_error() {
    let mut allies = Party::new(String::from("Allies"));
    allies.add_character(with_menu(Character::new(1, String::from("A")), vec![CharacterAction::UseItem, CharacterAction::Index(99)]));
    let (_, baddies) = get_test_parties(0, 1);
    let mut battle = battle_of(allies, baddies);
    battle.handle_input(Key::Char('\n')).unwrap();
    battle.handle_input(Key::Char('\n')).unwrap();
    assert_eq!(battle.handle_input(Key::Down), Err(BattleError::MissingAction(99)));
}

#[test]
fn item_use_is_not_available_yet() {
    let mut allies = Party::new(String::from("Allies"));
    allies.add_character(with_menu(Character::new(1, String::from("A")), vec![CharacterAction::UseItem]));
    let (_, baddies) = get_test_parties(0, 1);
    let mut battle = battle_of(allies, baddies);
    battle.handle_input(Key::Char('\n')).unwrap();
    battle.handle_input(Key::Char('\n')).unwrap();
    assert_eq!(battle.get_top_menu_options().unwrap(), vec!["Item"]);
    battle.handle_input(Key::Char('\n')).unwrap();
    assert_eq!(battle.selections, vec![0]);
    assert!(battle.targets.is_empty());
    assert!(battle.get_text().is_none());
}

#[test]
fn random_single_targets_are_living_opponents() {
    let (mut allies, baddies) = get_test_parties(3, 1);
    allies.get_mut_ch_by_pos(1).unwrap().take_hit(&String::from("HP"), 10);
    let battle = battle_of(allies, baddies);
    let mut seen = Vec::new();
    for _ in 0..40 {
        let ts = battle.get_random_targets(Scope::Enemy);
        assert_eq!(ts.len(), 1);
        assert!(ts[0] == PlayerIndex::Ally(0) || ts[0] == PlayerIndex::Ally(2));
        seen.push(ts[0]);
    }
    assert_eq!(battle.get_random_targets(Scope::Enemies), vec![PlayerIndex::Ally(0), PlayerIndex::Ally(2)]);
    let mut menu_walks = 0;
    let npc = battle.baddies.get_ch_by_pos(0).unwrap();
    for _ in 0..20 {
        if let Some(a) = npc.get_random_action(&battle.action_enc) {
            assert_eq!(a.name, "Attack");
            menu_walks += 1;
        }
    }
    assert!(menu_walks <= 20);
    assert!(!seen.is_empty());
}

#[test]
fn formula_errors_halt_effects() {
    let (allies, baddies) = get_test_parties(1, 1);
    let mut battle = battle_of(allies, baddies);
    let hits = vec![Hit { pool: String::from("HP"), amount: HitAmt::Formula(String::from("+ 1")) }];
    battle.effects.push_back(TargetedEffect { actor_pi: PlayerIndex::Ally(0), target_pi: PlayerIndex::Baddy(0), hits });
    assert_eq!(battle.handle_effect(), Err(BattleError::Formula(rpgrs::formula::FormulaError::OutOfTokens)));
    assert_eq!(battle.effects.len(), 1);
    assert!(battle.hits.is_empty());
}

#[test]
fn equal_speed_allies_alternate_turns() {
    let (allies, mut baddies) = get_test_parties(2, 1);
    baddies.get_mut_ch_by_pos(0).unwrap().take_hit(&String::from("HP"), 10);
    let mut battle = battle_of(allies, baddies);
    let mut turns = Vec::new();
    for _ in 0..6 {
        let who = battle.next_turn().unwrap();
        assert!(battle.is_pc_turn(&who.unwrap()));
        turns.push(who.unwrap());
        battle.current_pc_idx = None;
        battle.selections.clear();
    }
    let a0 = PlayerIndex::Ally(0);
    let a1 = PlayerIndex::Ally(1);
    assert_eq!(turns, vec![a0, a1, a0, a1, a0, a1]);
}

#[test]
fn nobody_ready_means_no_turn() {
    let (mut allies, mut baddies) = get_test_parties(1, 1);
    allies.get_mut_ch_by_pos(0).unwrap().take_hit(&String::from("HP"), 10);
    baddies.get_mut_ch_by_pos(0).unwrap().take_hit(&String::from("HP"), 10);
    let mut battle = battle_of(allies, baddies);
    assert_eq!(battle.next_turn(), Ok(None));
    assert!(battle.current_pc_idx.is_none());
}
