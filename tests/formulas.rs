use std::collections::HashMap;

use rpgrs::character::Character;
use rpgrs::encyclopedia::{Encyclopedia, StatBlockEncyclopedia};
use rpgrs::formula::{eval_hit, eval_stat, eval_stat_term, try_eval_hit, try_eval_stat, FormulaError};
use rpgrs::stats::StatBlock;
use rpgrs::table::Table;
use rpgrs::text::{int_text, list_names, parse_stat, replace_dashes, replace_text, split_on_char};

fn statblocks() -> StatBlockEncyclopedia {
    let mut stats = Table::new();
    stats.insert(String::from("Offense"), String::from("+ .AddMod * .MultMod + Weapon.Power ."));
    stats.insert(String::from("Speed"), String::from("."));
    stats.insert(String::from("Magic Defense"), String::from("* 3 Magic."));
    let sb = StatBlock { id: 0, name: String::from("Standard"), base_stats: Table::new(), stats };
    let mut en = HashMap::new();
    en.insert(0u64, sb);
    Encyclopedia::new(en)
}

#[test]
fn eval_stat_term_test() {
    let c = Character::new(0, String::from("Test"));
    assert_eq!(eval_stat_term(&c, &String::new(), &String::from("1")), Ok(1));
}

#[test]
fn eval_hit_test() {
    let f = String::from("+ 1 - ^Offense / $Offense 2");
    let c = Character::new(0, String::from("Test"));
    let statblocks = statblocks();
    let offense = c.get_stat_val(String::from("Offense"), 0, &statblocks).unwrap();
    let expected = 1 + offense - offense / 2;
    let evaluated = eval_hit(&f, Some(&c), &c, &statblocks);
    assert_eq!(evaluated, expected);
    assert_eq!(evaluated, 11);
}

#[test]
fn eval_stat_test() {
    let ds = String::from("+ .AddMod * .MultMod + Weapon.power .");
    let c = Character::new(0, String::from("Test"));
    let offense = *c.get_base_stat(String::from("Offense")).unwrap();
    let expected = offense + 10;
    assert_eq!(eval_stat(String::from("Offense"), &ds, &c), expected);
    assert_eq!(try_eval_stat(String::from("Offense"), &ds, &c), Ok(expected));
}

#[test]
fn incomplete_formulas_are_errors() {
    let c = Character::new(0, String::from("Test"));
    let statblocks = statblocks();
    assert_eq!(try_eval_hit(&String::from("+ 1"), Some(&c), &c, &statblocks), Err(FormulaError::OutOfTokens));
    assert_eq!(try_eval_stat(String::new(), &String::from("+ 1"), &c), Err(FormulaError::OutOfTokens));
    assert_eq!(try_eval_stat(String::new(), &String::new(), &c), Err(FormulaError::UnknownToken));
}

#[test]
fn unknown_terms_are_errors() {
    let c = Character::new(0, String::from("Test"));
    let statblocks = statblocks();
    assert_eq!(try_eval_hit(&String::from("+ 1 Moxie"), Some(&c), &c, &statblocks), Err(FormulaError::UnknownToken));
    assert_eq!(try_eval_hit(&String::from("+ 1 $Moxie"), Some(&c), &c, &statblocks), Ok(1));
    assert_eq!(try_eval_stat(String::new(), &String::from("+ 1 Moxie"), &c), Err(FormulaError::UnknownToken));
    assert_eq!(try_eval_stat(String::new(), &String::from("+ 1 Moxie."), &c), Err(FormulaError::MissingStat));
    assert_eq!(try_eval_stat(String::new(), &String::from("+ 1 Moxie.Blarg"), &c), Err(FormulaError::UnknownToken));
    assert_eq!(try_eval_stat(String::new(), &String::from("Moxie.Power"), &c), Err(FormulaError::MissingStat));
}

#[test]
fn missing_actor_and_division_by_zero() {
    let c = Character::new(0, String::from("Test"));
    let statblocks = statblocks();
    assert_eq!(try_eval_hit(&String::from("^Offense"), None, &c, &statblocks), Err(FormulaError::MissingActor));
    assert_eq!(try_eval_hit(&String::from("$Offense"), None, &c, &statblocks), Ok(20));
    assert_eq!(try_eval_hit(&String::from("/ 5 0"), None, &c, &statblocks), Err(FormulaError::DivideByZero));
}

#[test]
fn arithmetic_saturates_and_truncates() {
    let c = Character::new(0, String::from("Test"));
    let sb = statblocks();
    assert_eq!(try_eval_hit(&String::from("- 7 10"), None, &c, &sb), Ok(-3));
    assert_eq!(try_eval_hit(&String::from("/ -7 2"), None, &c, &sb), Ok(-3));
    assert_eq!(try_eval_hit(&String::from("/ 7 -2"), None, &c, &sb), Ok(-3));
    assert_eq!(try_eval_hit(&String::from("* 2147483647 2"), None, &c, &sb), Ok(i32::MAX));
    assert_eq!(try_eval_hit(&String::from("- -2147483648 1"), None, &c, &sb), Ok(i32::MIN));
    assert_eq!(try_eval_hit(&String::from("/ -2147483648 -1"), None, &c, &sb), Ok(i32::MAX));
    assert_eq!(try_eval_hit(&String::from("+ 1 2 3"), None, &c, &sb), Ok(3));
}

#[test]
fn stat_values_from_stat_blocks() {
    let c = Character::new(0, String::from("Test"));
    let sb = statblocks();
    assert_eq!(c.get_stat_val(String::from("Offense"), 0, &sb), Ok(20));
    assert_eq!(c.get_stat_val(String::from("Speed"), 0, &sb), Ok(10));
    assert_eq!(c.get_stat_val(String::from("Moxie"), 7, &sb), Ok(7));
    assert!(c.get_stat(String::from("Offense"), &sb).is_some());
    assert!(c.get_stat(String::from("Moxie"), &sb).is_none());
    assert!(c.get_base_stat(String::from("Strength")).is_some());
    assert!(c.get_base_stat(String::from("Moxie")).is_none());
    assert_eq!(try_eval_hit(&String::from("$Magic-Defense"), None, &c, &sb), Ok(30));
    assert_eq!(try_eval_hit(&String::from("^Level"), Some(&c), &c, &sb), Ok(1));
}

#[test]
fn text_helpers() {
    let parts = split_on_char(&String::from("+ 1  x"), ' ');
    assert_eq!(parts, vec!["+", "1", "", "x"]);
    assert_eq!(split_on_char(&String::new(), ' '), vec![""]);
    assert_eq!(replace_dashes(&String::from("Magic-Defense-Up")), "Magic Defense Up");
    assert_eq!(parse_stat(&String::from("-42")), Some(-42));
    assert_eq!(parse_stat(&String::from("+7")), Some(7));
    assert_eq!(parse_stat(&String::from("2147483648")), None);
    assert_eq!(parse_stat(&String::from("-2147483648")), Some(i32::MIN));
    assert_eq!(parse_stat(&String::from("-")), None);
    assert_eq!(parse_stat(&String::from("1a")), None);
    assert_eq!(replace_text("aXbXXc", "X", "yz"), "ayzbyzyzc");
    assert_eq!(int_text(-120), "-120");
    assert_eq!(int_text(0), "0");
    assert_eq!(int_text(i64::MIN), "-9223372036854775808");
    assert_eq!(list_names(&vec![String::from("A"), String::from("B")]), "A and B");
}
