use vstd::prelude::*;

use crate::action::{
    lemma_menus_along, menus_along, prompts_are, prompts_resolve, selection_of, Action, ActionMenu, CharacterAction,
    Costs,
};
use crate::chance::random_below;
use crate::condition::{Condition, TargetCondition};
use crate::encyclopedia::{ActionEncyclopedia, ConditionEncyclopedia};
use crate::error::BattleError;
use crate::common::{Hit, HitAmt, Hits, Id, IndexedOrLiteral, Name, Target};
use crate::effect::{resolved_amount, Effect};
use crate::encyclopedia::EffectEncyclopedia;
use crate::condition::TargetConditions;
use crate::encyclopedia::StatBlockEncyclopedia;
use crate::formula::{try_eval_stat, item_attr, stat_formula, stat_value, FormulaError};
use crate::stats::{BaseStats, DerivedStat, Stat};
use crate::table::{find_from, lemma_find_from, Table};

verus! {

pub type CharacterStats = Id;

pub type Items = Vec<Id>;

/// A bounded resource such as HP or MP.
#[derive(Debug, Clone, PartialEq)]
pub struct Pool {
    pub name: Name,
    pub current: i32,
    pub maximum: i32,
}

pub type Pools = Table<Pool>;

/// A combatant: base statistics, the stat block its derived statistics come from, its action
/// menu, items, pools and live conditions.
#[derive(Debug)]
pub struct Character {
    pub id: Id,
    pub name: Name,
    pub base_stats: BaseStats,
    pub stats: CharacterStats,
    pub actions: ActionMenu,
    pub items: Items,
    pub pools: Pools,
    pub conditions: TargetConditions,
}

/// The new current value of a pool hit by `amount`: never below 0, never above the maximum.
pub open spec fn hit_result(current: int, amount: int, maximum: int) -> int {
    let t = if current - amount < 0 {
        0
    } else {
        current - amount
    };
    if t > maximum {
        maximum
    } else {
        t
    }
}

/// `after` is `before` once pool `pool` has taken a hit of `amount`: that pool's current value
/// is `current - amount` kept within 0 and the maximum, and nothing else changes. A missing pool
/// leaves the character as it is.
pub open spec fn hit_taken(before: Character, after: Character, pool: Seq<char>, amount: i32) -> bool {
    &&& match before.pools.index_of(pool) {
        Some(i) => after.pools.entries@ == before.pools.entries@.update(
            i,
            (
                before.pools.entries@[i].0,
                Pool {
                    current: hit_result(before.pools.entries@[i].1.current as int, amount as int, before.pools.entries@[i].1.maximum as int) as i32,
                    ..before.pools.entries@[i].1
                },
            ),
        ),
        None => after.pools == before.pools,
    }
    &&& after.id == before.id
    &&& after.name == before.name
    &&& after.stats == before.stats
    &&& after.base_stats == before.base_stats
    &&& after.actions == before.actions
    &&& after.items == before.items
    &&& after.conditions == before.conditions
}

/// The pools after paying `costs` one entry at a time, or `None` where some pool is missing or
/// holds less than what is asked of it.
pub open spec fn pay(pools: Seq<(String, Pool)>, costs: Seq<(String, u32)>) -> Option<Seq<(String, Pool)>>
    decreases costs.len(),
{
    if costs.len() == 0 {
        Some(pools)
    } else {
        match find_from(pools, costs[0].0@, 0) {
            None => None,
            Some(i) => {
                let p = pools[i].1;
                if p.current >= costs[0].1 {
                    pay(
                        pools.update(
                            i,
                            (pools[i].0, Pool { current: (p.current - costs[0].1) as i32, ..p }),
                        ),
                        costs.drop_first(),
                    )
                } else {
                    None
                }
            },
        }
    }
}

/// A character is down when it has an HP pool at or below 0.
pub open spec fn is_down_spec(c: Character) -> bool {
    match c.pools.lookup("HP"@) {
        Some(p) => p.current <= 0,
        None => false,
    }
}

fn copy_pool_entries(p: &Vec<(String, Pool)>) -> (r: Vec<(String, Pool)>)
    ensures
        r@ == p@,
{
    let mut r: Vec<(String, Pool)> = Vec::new();
    let mut i: usize = 0;
    while i < p.len()
        invariant
            i <= p@.len(),
            r@ == p@.subrange(0, i as int),
        decreases p@.len() - i,
    {
        let e = &p[i];
        r.push((e.0.clone(), Pool { name: e.1.name.clone(), current: e.1.current, maximum: e.1.maximum }));
        i = i + 1;
        assert(r@ =~= p@.subrange(0, i as int));
    }
    assert(r@ =~= p@);
    r
}

impl Character {
    fn default_base_stats() -> (r: BaseStats)
        ensures
            r.entries@.len() == 5,
            r.entries@[0].0@ == "Offense"@ && r.entries@[0].1 == 10,
            r.entries@[1].0@ == "Strength"@ && r.entries@[1].1 == 10,
            r.entries@[2].0@ == "Stamina"@ && r.entries@[2].1 == 10,
            r.entries@[3].0@ == "Magic"@ && r.entries@[3].1 == 10,
            r.entries@[4].0@ == "Speed"@ && r.entries@[4].1 == 10,
    {
        let mut bs: BaseStats = Table::new();
        bs.entries.push((String::from_str("Offense"), 10));
        bs.entries.push((String::from_str("Strength"), 10));
        bs.entries.push((String::from_str("Stamina"), 10));
        bs.entries.push((String::from_str("Magic"), 10));
        bs.entries.push((String::from_str("Speed"), 10));
        bs
    }

    fn default_stats() -> (r: Id)
        ensures
            r == 0,
    {
        0
    }

    fn default_pools() -> (r: Pools)
        ensures
            r.entries@.len() == 2,
            r.entries@[0].0@ == "HP"@ && r.entries@[0].1.current == 10 && r.entries@[0].1.maximum == 10,
            r.entries@[1].0@ == "MP"@ && r.entries@[1].1.current == 5 && r.entries@[1].1.maximum == 5,
    {
        let mut pools: Pools = Table::new();
        pools.entries.push((String::from_str("HP"), Pool { name: String::from_str("HP"), current: 10, maximum: 10 }));
        pools.entries.push((String::from_str("MP"), Pool { name: String::from_str("MP"), current: 5, maximum: 5 }));
        pools
    }

    /// A fresh character: default base stats, stat block 0, the default menu, HP 10/10, MP 5/5.
    pub fn new(id: Id, name: Name) -> (r: Character)
        ensures
            r.id == id,
            r.name == name,
            r.stats == 0,
            r.items@.len() == 0,
            r.conditions@.len() == 0,
            r.base_stats.entries@.len() == 5,
            r.base_stats.entries@[0].0@ == "Offense"@ && r.base_stats.entries@[0].1 == 10,
            r.base_stats.entries@[1].0@ == "Strength"@ && r.base_stats.entries@[1].1 == 10,
            r.base_stats.entries@[2].0@ == "Stamina"@ && r.base_stats.entries@[2].1 == 10,
            r.base_stats.entries@[3].0@ == "Magic"@ && r.base_stats.entries@[3].1 == 10,
            r.base_stats.entries@[4].0@ == "Speed"@ && r.base_stats.entries@[4].1 == 10,
            r.pools.entries@.len() == 2,
            r.pools.entries@[0].0@ == "HP"@ && r.pools.entries@[0].1.current == 10 && r.pools.entries@[0].1.maximum == 10,
            r.pools.entries@[1].0@ == "MP"@ && r.pools.entries@[1].1.current == 5 && r.pools.entries@[1].1.maximum == 5,
            !is_down_spec(r),
    {
        let c = Character {
            id,
            name,
            base_stats: Character::default_base_stats(),
            stats: Character::default_stats(),
            actions: ActionMenu::new(),
            items: Vec::new(),
            pools: Character::default_pools(),
            conditions: Vec::new(),
        };
        assert(find_from(c.pools.entries@, "HP"@, 0) == Some(0int));
        c
    }

    pub fn matches(&self, id: Id) -> (r: bool)
        ensures
            r == (self.id == id),
    {
        self.id == id
    }

    pub fn whoami(&self) -> (r: (Id, &str))
        ensures
            r.0 == self.id,
            r.1@ == self.name@,
    {
        (self.id, self.name.as_str())
    }

    pub fn copy_name(&self) -> (r: Name)
        ensures
            r == self.name,
    {
        self.name.clone()
    }

    pub fn get_base_stat(&self, name: Name) -> (r: Option<&Stat>)
        ensures
            match r {
                Some(v) => self.base_stats.lookup(name@) == Some(*v),
                None => self.base_stats.lookup(name@) is None,
            },
    {
        self.base_stats.get(&name)
    }

    /// The formula of the derived stat `name` in this character's stat block.
    pub fn get_stat<'s>(&self, name: Name, statblocks: &'s StatBlockEncyclopedia) -> (r: Option<&'s DerivedStat>)
        ensures
            match r {
                Some(f) => stat_formula(*self, name@, *statblocks) == Some(*f),
                None => stat_formula(*self, name@, *statblocks) is None,
            },
    {
        match statblocks.get(&self.stats) {
            Some(statblock) => statblock.get_stat(name),
            None => None,
        }
    }

    /// The derived stat `name`, evaluated from its formula, or `default` where there is none.
    pub fn get_stat_val(&self, name: Name, default: Stat, statblocks: &StatBlockEncyclopedia) -> (r: Result<
        Stat,
        FormulaError,
    >)
        ensures
            r == stat_value(*self, name@, default, *statblocks),
    {
        let base_stat = name.clone();
        match self.get_stat(name, statblocks) {
            Some(formula) => try_eval_stat(base_stat, formula, self),
            None => Ok(default),
        }
    }

    /// The current and maximum values of pool `name`.
    pub fn get_pool_vals(&self, name: String) -> (r: Option<(i32, i32)>)
        ensures
            match self.pools.lookup(name@) {
                Some(p) => r == Some((p.current, p.maximum)),
                None => r is None,
            },
    {
        match self.pools.get(&name) {
            Some(pool) => Some((pool.current, pool.maximum)),
            None => None,
        }
    }

    pub fn get_pools(&self) -> (r: &Pools)
        ensures
            *r == self.pools,
    {
        &self.pools
    }

    /// The attribute `attr` of what this character bears in `slot`.
    pub fn get_item_attr(&self, slot: Name, attr: Name) -> (r: Option<Stat>)
        ensures
            r == item_attr(slot@, attr@),
    {
        let weapon = String::from_str("Weapon");
        let armor = String::from_str("Armor");
        if slot == weapon || slot == armor {
            Some(10)
        } else {
            None
        }
    }

    /// The sum of additive modifiers on stat `stat_name`; no source of them is modelled yet.
    pub fn sum_add_mods(&self, stat_name: Name) -> (r: Stat)
        ensures
            r == 0,
    {
        0
    }

    /// The product of multiplicative modifiers on stat `stat_name`; no source of them is modelled
    /// yet.
    pub fn sum_mult_mods(&self, stat_name: Name) -> (r: Stat)
        ensures
            r == 1,
    {
        1
    }

    /// Whether this character holds every pool that `costs` names and can pay them all.
    pub fn can_afford_costs(&self, costs: &Costs) -> (r: bool)
        ensures
            r == pay(self.pools.entries@, costs.entries@) is Some,
    {
        let mut pools = copy_pool_entries(&self.pools.entries);
        assert(costs.entries@.subrange(0, costs.entries@.len() as int) =~= costs.entries@);
        let mut i: usize = 0;
        while i < costs.entries.len()
            invariant
                i <= costs.entries@.len(),
                pay(self.pools.entries@, costs.entries@) == pay(pools@, costs.entries@.subrange(i as int, costs.entries@.len() as int)),
            decreases costs.entries@.len() - i,
        {
            let ghost rest = costs.entries@.subrange(i as int, costs.entries@.len() as int);
            proof {
                assert(rest.drop_first() =~= costs.entries@.subrange(i + 1, costs.entries@.len() as int));
            }
            let t = Table { entries: pools };
            let pos = t.position(&costs.entries[i].0);
            pools = t.entries;
            proof {
                lemma_find_from(pools@, costs.entries@[i as int].0@, 0);
            }
            match pos {
                None => {
                    return false;
                },
                Some(k) => {
                    let cost = costs.entries[i].1;
                    let cur = pools[k].1.current;
                    if (cur as i64) < (cost as i64) {
                        return false;
                    }
                    let np = (pools[k].0.clone(), Pool { name: pools[k].1.name.clone(), current: (cur as i64 - cost as i64) as i32, maximum: pools[k].1.maximum });
                    pools.set(k, np);
                },
            }
            i = i + 1;
        }
        proof {
            assert(costs.entries@.subrange(i as int, costs.entries@.len() as int).len() == 0);
        }
        true
    }

    /// Whether this character can pay the action's costs.
    pub fn can_afford_action_costs(&self, action: &Action) -> (r: bool)
        ensures
            r == pay(self.pools.entries@, action.costs.entries@) is Some,
    {
        self.can_afford_costs(&action.costs)
    }

    /// Pays `costs` from the pools.
    pub fn spend_costs(&mut self, costs: Costs)
        requires
            pay(old(self).pools.entries@, costs.entries@) is Some,
        ensures
            Some(final(self).pools.entries@) == pay(old(self).pools.entries@, costs.entries@),
            final(self).id == old(self).id,
            final(self).name == old(self).name,
            final(self).stats == old(self).stats,
            final(self).base_stats == old(self).base_stats,
            final(self).actions == old(self).actions,
            final(self).items == old(self).items,
            final(self).conditions == old(self).conditions,
    {
        self.spend_action_cost_entries(&costs)
    }

    /// Pays the action's costs from the pools.
    pub fn spend_action_costs(&mut self, action: &Action)
        requires
            pay(old(self).pools.entries@, action.costs.entries@) is Some,
        ensures
            Some(final(self).pools.entries@) == pay(old(self).pools.entries@, action.costs.entries@),
            final(self).id == old(self).id,
            final(self).name == old(self).name,
            final(self).stats == old(self).stats,
            final(self).base_stats == old(self).base_stats,
            final(self).actions == old(self).actions,
            final(self).items == old(self).items,
            final(self).conditions == old(self).conditions,
    {
        self.spend_action_cost_entries(&action.costs)
    }

    fn spend_action_cost_entries(&mut self, costs: &Costs)
        requires
            pay(old(self).pools.entries@, costs.entries@) is Some,
        ensures
            Some(final(self).pools.entries@) == pay(old(self).pools.entries@, costs.entries@),
            final(self).id == old(self).id,
            final(self).name == old(self).name,
            final(self).stats == old(self).stats,
            final(self).base_stats == old(self).base_stats,
            final(self).actions == old(self).actions,
            final(self).items == old(self).items,
            final(self).conditions == old(self).conditions,
    {
        let ghost start = self.pools.entries@;
        assert(costs.entries@.subrange(0, costs.entries@.len() as int) =~= costs.entries@);
        let mut i: usize = 0;
        while i < costs.entries.len()
            invariant
                i <= costs.entries@.len(),
                pay(start, costs.entries@) == pay(self.pools.entries@, costs.entries@.subrange(i as int, costs.entries@.len() as int)),
                pay(start, costs.entries@) is Some,
                self.id == old(self).id,
                self.name == old(self).name,
                self.stats == old(self).stats,
                self.base_stats == old(self).base_stats,
                self.actions == old(self).actions,
                self.items == old(self).items,
                self.conditions == old(self).conditions,
            decreases costs.entries@.len() - i,
        {
            let ghost rest = costs.entries@.subrange(i as int, costs.entries@.len() as int);
            proof {
                assert(rest.drop_first() =~= costs.entries@.subrange(i + 1, costs.entries@.len() as int));
                lemma_find_from(self.pools.entries@, costs.entries@[i as int].0@, 0);
            }
            let pos = self.pools.position(&costs.entries[i].0);
            match pos {
                None => {
                    assert(false);
                },
                Some(k) => {
                    let cost = costs.entries[i].1;
                    let cur = self.pools.entries[k].1.current;
                    let np = (self.pools.entries[k].0.clone(), Pool { name: self.pools.entries[k].1.name.clone(), current: (cur as i64 - cost as i64) as i32, maximum: self.pools.entries[k].1.maximum });
                    self.pools.entries.set(k, np);
                },
            }
            i = i + 1;
        }
        proof {
            assert(costs.entries@.subrange(i as int, costs.entries@.len() as int).len() == 0);
        }
    }

    /// Applies a hit of `amount` to pool `pool`: the pool's current value becomes
    /// `current - amount` kept within 0 and the maximum. Gives back `amount`, or 0 where there
    /// is no such pool.
    pub fn take_hit(&mut self, pool: &Name, amount: i32) -> (r: i32)
        ensures
            hit_taken(*old(self), *final(self), pool@, amount),
            r == if old(self).pools.index_of(pool@) is Some { amount } else { 0 },
    {
        match self.pools.position(pool) {
            Some(k) => {
                let curr = self.pools.entries[k].1.current as i64;
                let max = self.pools.entries[k].1.maximum as i64;
                let v = amount as i64;
                let t = if curr - v < 0 { 0 } else { curr - v };
                let n = if t > max { max } else { t };
                let np = (self.pools.entries[k].0.clone(), Pool { name: self.pools.entries[k].1.name.clone(), current: n as i32, maximum: self.pools.entries[k].1.maximum });
                self.pools.entries.set(k, np);
                amount
            },
            None => 0,
        }
    }

    /// Whether this character is down: its HP pool is at or below 0.
    pub fn is_down(&self) -> (r: bool)
        ensures
            r == is_down_spec(*self),
    {
        match self.get_pool_vals(String::from_str("HP")) {
            Some((cur, _)) => cur <= 0,
            None => false,
        }
    }
}

impl Target for Character {
    open spec fn has_pool(&self, pool: Seq<char>) -> bool {
        self.pools.index_of(pool) is Some
    }

    open spec fn hit_applied(&self, after: Character, pool: Seq<char>, amount: i32) -> bool {
        hit_taken(*self, after, pool, amount)
    }

    fn hit_pool(&mut self, pool: &Name, amount: i32) -> (r: i32) {
        self.take_hit(pool, amount)
    }
}


/// The menus shown along a selection path: where it leads through menus only, the prompts of
/// every menu visited, the root first.
pub open spec fn options_along(root: ActionMenu, path: Seq<usize>, enc: ActionEncyclopedia, r: Option<Vec<Vec<Name>>>) -> bool {
    match r {
        Some(v) => menus_along(root, path) matches Some(ms) && v@.len() == ms.len() && forall|k: int|
            0 <= k < ms.len() ==> prompts_are(ms[k], enc, #[trigger] v@[k]@),
        None => match menus_along(root, path) {
            Some(ms) => exists|k: int| 0 <= k < ms.len() && !prompts_resolve(#[trigger] ms[k], enc),
            None => true,
        },
    }
}

/// Some selection path leads from `menu` to `a`.
pub open spec fn reachable(menu: ActionMenu, a: Action, enc: ActionEncyclopedia) -> bool {
    exists|path: Seq<usize>| selection_of(menu, path, enc) == Some(a)
}

/// Following `path` from `menu` ends where a random walk stops without an action: on an empty
/// menu, on item use, or on an action id that is not in `enc`.
pub open spec fn dead_end(menu: ActionMenu, path: Seq<usize>, enc: ActionEncyclopedia) -> bool
    decreases path.len(),
{
    if path.len() == 0 {
        menu.options@.len() == 0
    } else if path[0] >= menu.options@.len() {
        false
    } else {
        match menu.options@[path[0] as int] {
            CharacterAction::Index(id) => path.len() == 1 && !enc.records().contains_key(id),
            CharacterAction::UseItem => path.len() == 1,
            CharacterAction::Literal(_) => false,
            CharacterAction::Menu(m) => dead_end(m, path.drop_first(), enc),
        }
    }
}

/// A countdown after `dt` ticks: it goes down, and starts again from `period` when it runs out.
pub open spec fn tick(cd: u16, dt: u16, period: u16) -> u16 {
    if cd <= dt {
        period
    } else {
        (cd - dt) as u16
    }
}

pub open spec fn sat_add_u16(a: int, b: int) -> u16 {
    if a + b > u16::MAX {
        u16::MAX
    } else {
        (a + b) as u16
    }
}

/// `after` is the live condition `before` aged by `dt` ticks under the rules of `con`.
pub open spec fn aged(before: TargetCondition, after: TargetCondition, con: Condition, dt: u16) -> bool {
    &&& after.condition_id == before.condition_id
    &&& after.duration == sat_add_u16(before.duration as int, dt as int)
    &&& after.repeat_effect_countdowns@.len() == before.repeat_effect_countdowns@.len()
    &&& forall|j: int| 0 <= j < after.repeat_effect_countdowns@.len() ==> #[trigger] after.repeat_effect_countdowns@[j] == if j < con.repeat_effects@.len() {
        tick(before.repeat_effect_countdowns@[j], dt, con.repeat_effects@[j].period)
    } else {
        before.repeat_effect_countdowns@[j]
    }
    &&& after.repeat_hit_countdowns@.len() == before.repeat_hit_countdowns@.len()
    &&& forall|j: int| 0 <= j < after.repeat_hit_countdowns@.len() ==> #[trigger] after.repeat_hit_countdowns@[j] == if j < con.repeat_hits@.len() {
        tick(before.repeat_hit_countdowns@[j], dt, con.repeat_hits@[j].period)
    } else {
        before.repeat_hit_countdowns@[j]
    }
}

/// Every live condition of `c` refers to a condition in `enc`.
pub open spec fn conditions_known(c: Character, enc: ConditionEncyclopedia) -> bool {
    forall|i: int| 0 <= i < c.conditions@.len() ==> enc.records().contains_key(#[trigger] c.conditions@[i].condition_id)
}

/// `after` is `before` with every live condition aged by `dt` ticks, and nothing else changed.
pub open spec fn conditions_aged(before: Character, after: Character, enc: ConditionEncyclopedia, dt: u16) -> bool {
    &&& after.conditions@.len() == before.conditions@.len()
    &&& forall|i: int| 0 <= i < after.conditions@.len() ==> aged(before.conditions@[i], #[trigger] after.conditions@[i], enc.records()[before.conditions@[i].condition_id], dt)
    &&& after.id == before.id
    &&& after.name == before.name
    &&& after.base_stats == before.base_stats
    &&& after.stats == before.stats
    &&& after.actions == before.actions
    &&& after.items == before.items
    &&& after.pools == before.pools
}

/// A speed as a clock rate: negative speeds count as 0, speeds above the clock range as its top.
pub open spec fn speed_rate(speed: i32) -> u16 {
    if speed < 0 {
        0
    } else if speed > u16::MAX {
        u16::MAX
    } else {
        speed as u16
    }
}

/// How far a character's clock moves in `dt` ticks: nothing while down, else `dt` times its
/// Speed, saturating. `None` where its Speed cannot be derived.
pub open spec fn clock_gain(c: Character, dt: u16, sb: StatBlockEncyclopedia) -> Option<u16> {
    if is_down_spec(c) {
        Some(0)
    } else {
        match stat_value(c, "Speed"@, 0, sb) {
            Ok(speed) => Some(
                if dt * speed_rate(speed) > u16::MAX {
                    u16::MAX
                } else {
                    (dt * speed_rate(speed)) as u16
                },
            ),
            Err(_) => None,
        }
    }
}

fn age_countdowns<T>(cds: &Vec<u16>, reps: &Vec<crate::condition::Repeat<T>>, dt: u16) -> (r: Vec<u16>)
    ensures
        r@.len() == cds@.len(),
        forall|j: int| 0 <= j < r@.len() ==> #[trigger] r@[j] == if j < reps@.len() {
            tick(cds@[j], dt, reps@[j].period)
        } else {
            cds@[j]
        },
{
    let mut r: Vec<u16> = Vec::new();
    let mut j: usize = 0;
    while j < cds.len()
        invariant
            j <= cds@.len(),
            r@.len() == j,
            forall|k: int| 0 <= k < j ==> #[trigger] r@[k] == if k < reps@.len() {
                tick(cds@[k], dt, reps@[k].period)
            } else {
                cds@[k]
            },
        decreases cds@.len() - j,
    {
        let cd = cds[j];
        if j < reps.len() {
            r.push(if cd <= dt { reps[j].period } else { cd - dt });
        } else {
            r.push(cd);
        }
        j = j + 1;
    }
    r
}

impl Character {
    /// The prompts of every menu along a selection path, the root menu first. `None` where an
    /// index does not pick a menu, or an option names an action that is not in `act_en`.
    pub fn get_action_options(&self, selections: &Vec<usize>, act_en: &ActionEncyclopedia) -> (r: Option<Vec<Vec<Name>>>)
        ensures
            options_along(self.actions, selections@, *act_en, r),
    {
        let ghost path = selections@;
        let n = selections.len();
        let mut menu: &ActionMenu = &self.actions;
        proof {
            lemma_menus_along(self.actions, path);
        }
        let first = match menu.get_prompts(act_en) {
            Some(p) => p,
            None => {
                proof {
                    if let Some(ms) = menus_along(self.actions, path) {
                        assert(!prompts_resolve(ms[0], *act_en));
                    }
                }
                return None;
            },
        };
        let mut result: Vec<Vec<Name>> = Vec::new();
        result.push(first);
        let ghost mut acc: Seq<ActionMenu> = Seq::empty();
        proof {
            assert(path.subrange(0, n as int) =~= path);
            assert(menus_along(*menu, path) =~= match menus_along(*menu, path) { Some(ms) => Some(acc + ms), None => None::<Seq<ActionMenu>> });
        }
        let mut k: usize = 0;
        while k < n
            invariant
                n == path.len(),
                path == selections@,
                k <= n,
                acc.len() == k,
                result@.len() == k + 1,
                forall|j: int| 0 <= j <= k ==> prompts_are(#[trigger] acc.push(*menu)[j], *act_en, result@[j]@),
                menus_along(self.actions, path) == match menus_along(*menu, path.subrange(k as int, n as int)) {
                    Some(ms) => Some(acc + ms),
                    None => None::<Seq<ActionMenu>>,
                },
            decreases n - k,
        {
            let ghost rest = path.subrange(k as int, n as int);
            let s = selections[k];
            proof {
                assert(rest[0] == s);
                assert(rest.drop_first() =~= path.subrange(k + 1, n as int));
            }
            match menu.get_option(s) {
                Some(CharacterAction::Menu(m)) => {
                    proof {
                        lemma_menus_along(*m, rest.drop_first());
                    }
                    match m.get_prompts(act_en) {
                        Some(p) => {
                            proof {
                                let ghost new_acc = acc.push(*menu);
                                match menus_along(*m, rest.drop_first()) {
                                    Some(ms) => {
                                        assert(acc + (seq![*menu] + ms) =~= new_acc + ms);
                                    },
                                    None => {},
                                }
                                assert forall|j: int| 0 <= j <= k + 1 implies prompts_are(#[trigger] new_acc.push(*m)[j], *act_en, result@.push(p)[j]@) by {
                                    if j <= k {
                                        assert(new_acc.push(*m)[j] == acc.push(*menu)[j]);
                                    }
                                }
                                acc = new_acc;
                            }
                            result.push(p);
                            menu = m;
                            k = k + 1;
                        },
                        None => {
                            proof {
                                match menus_along(*m, rest.drop_first()) {
                                    Some(ms) => {
                                        let all = acc + (seq![*menu] + ms);
                                        // the menu that fails is the one after the `k` already visited
                                        assert(all[k + 1] == *m);
                                        assert(menus_along(self.actions, path)->Some_0 == all);
                                        assert(!prompts_resolve(menus_along(self.actions, path)->Some_0[k + 1], *act_en));
                                    },
                                    None => {
                                        assert(menus_along(*menu, rest) is None);
                                        assert(menus_along(self.actions, path) is None);
                                    },
                                }
                                assert(options_along(self.actions, path, *act_en, None));
                            }
                            return None;
                        },
                    }
                },
                _ => {
                    assert(menus_along(*menu, rest) is None);
                    return None;
                },
            }
        }
        proof {
            assert(path.subrange(n as int, n as int) =~= Seq::<usize>::empty());
            assert(acc + seq![*menu] =~= acc.push(*menu));
        }
        Some(result)
    }

    /// The action that a selection path leads to.
    pub fn get_action_selection<'a>(&'a self, selections: &Vec<usize>, action_enc: &'a ActionEncyclopedia) -> (r: Option<&'a Action>)
        ensures
            match r {
                Some(a) => selection_of(self.actions, selections@, *action_enc) == Some(*a),
                None => selection_of(self.actions, selections@, *action_enc) is None,
            },
    {
        let ghost path = selections@;
        let n = selections.len();
        let mut menu: &ActionMenu = &self.actions;
        let mut k: usize = 0;
        proof {
            assert(path.subrange(0, n as int) =~= path);
        }
        while k < n
            invariant
                n == path.len(),
                path == selections@,
                k <= n,
                selection_of(self.actions, path, *action_enc) == selection_of(*menu, path.subrange(k as int, n as int), *action_enc),
            decreases n - k,
        {
            let ghost rest = path.subrange(k as int, n as int);
            let s = selections[k];
            proof {
                assert(rest[0] == s);
                assert(rest.drop_first() =~= path.subrange(k + 1, n as int));
            }
            match menu.get_option(s) {
                Some(CharacterAction::Index(id)) => {
                    return action_enc.get(id);
                },
                Some(CharacterAction::Literal(a)) => {
                    return Some(a);
                },
                Some(CharacterAction::Menu(m)) => {
                    menu = m;
                    k = k + 1;
                },
                _ => {
                    return None;
                },
            }
        }
        None
    }

    /// A leaf action of `menu` reached by picking options uniformly at random until one is not a
    /// menu.
    fn random_leaf<'a>(menu: &'a ActionMenu, action_enc: &'a ActionEncyclopedia) -> (r: Option<&'a Action>)
        ensures
            match r {
                Some(a) => reachable(*menu, *a, *action_enc),
                None => exists|path: Seq<usize>| dead_end(*menu, path, *action_enc),
            },
        decreases menu,
    {
        if menu.len() == 0 {
            assert(dead_end(*menu, Seq::<usize>::empty(), *action_enc));
            return None;
        }
        let s = random_below(menu.len());
        match menu.get_option(s) {
            Some(CharacterAction::Index(id)) => {
                let r = action_enc.get(id);
                proof {
                    if let Some(a) = r {
                        assert(selection_of(*menu, seq![s], *action_enc) == Some(*a));
                    } else {
                        assert(dead_end(*menu, seq![s], *action_enc));
                    }
                }
                r
            },
            Some(CharacterAction::Literal(a)) => {
                proof {
                    assert(selection_of(*menu, seq![s], *action_enc) == Some(*a));
                }
                Some(a)
            },
            Some(CharacterAction::Menu(m)) => {
                proof {
                    assert(decreases_to!(menu.options => menu.options@[s as int]));
                }
                let r = Character::random_leaf(m, action_enc);
                proof {
                    if let Some(a) = r {
                        let path = choose|path: Seq<usize>| selection_of(*m, path, *action_enc) == Some(*a);
                        assert((seq![s] + path).drop_first() =~= path);
                        assert(selection_of(*menu, seq![s] + path, *action_enc) == Some(*a));
                    } else {
                        let path = choose|path: Seq<usize>| dead_end(*m, path, *action_enc);
                        assert((seq![s] + path).drop_first() =~= path);
                        assert(dead_end(*menu, seq![s] + path, *action_enc));
                    }
                }
                r
            },
            _ => {
                assert(dead_end(*menu, seq![s], *action_enc));
                None
            },
        }
    }

    /// An action chosen by a random walk down the action menu: at every menu an option is drawn
    /// uniformly until one is not a menu. `None` where the walk ends on item use, on an empty
    /// menu or on a missing action.
    pub fn get_random_action<'a>(&'a self, action_enc: &'a ActionEncyclopedia) -> (r: Option<&'a Action>)
        ensures
            match r {
                Some(a) => reachable(self.actions, *a, *action_enc),
                None => exists|path: Seq<usize>| dead_end(self.actions, path, *action_enc),
            },
    {
        Character::random_leaf(&self.actions, action_enc)
    }

    /// Ages every live condition by `dt` ticks; fails, changing nothing, where one refers to a
    /// condition that is not in `conditions`.
    pub fn experience_conditions(&mut self, dt: u16, conditions: &ConditionEncyclopedia) -> (r: Result<(), BattleError>)
        ensures
            match r {
                Ok(()) => conditions_known(*old(self), *conditions) && conditions_aged(*old(self), *final(self), *conditions, dt),
                Err(e) => !conditions_known(*old(self), *conditions) && e is MissingCondition && *final(self) == *old(self),
            },
    {
        let mut i: usize = 0;
        while i < self.conditions.len()
            invariant
                i <= self.conditions@.len(),
                *self == *old(self),
                forall|j: int| 0 <= j < i ==> conditions.records().contains_key(#[trigger] self.conditions@[j].condition_id),
            decreases self.conditions@.len() - i,
        {
            let id = self.conditions[i].condition_id;
            if conditions.get(&id).is_none() {
                return Err(BattleError::MissingCondition(id));
            }
            i = i + 1;
        }
        let ghost before = *self;
        let mut i: usize = 0;
        while i < self.conditions.len()
            invariant
                conditions_known(before, *conditions),
                i <= self.conditions@.len(),
                self.conditions@.len() == before.conditions@.len(),
                forall|j: int| 0 <= j < i ==> aged(before.conditions@[j], #[trigger] self.conditions@[j], conditions.records()[before.conditions@[j].condition_id], dt),
                forall|j: int| i <= j < self.conditions@.len() ==> #[trigger] self.conditions@[j] == before.conditions@[j],
                self.id == before.id,
                self.name == before.name,
                self.base_stats == before.base_stats,
                self.stats == before.stats,
                self.actions == before.actions,
                self.items == before.items,
                self.pools == before.pools,
            decreases self.conditions@.len() - i,
        {
            let tcon = &self.conditions[i];
            let con = match conditions.get(&tcon.condition_id) {
                Some(c) => c,
                None => {
                    assert(false);
                    return Err(BattleError::MissingCondition(tcon.condition_id));
                },
            };
            let effect_cds = age_countdowns(&tcon.repeat_effect_countdowns, &con.repeat_effects, dt);
            let hit_cds = age_countdowns(&tcon.repeat_hit_countdowns, &con.repeat_hits, dt);
            let duration: u16 = if tcon.duration as u32 + dt as u32 > u16::MAX as u32 { u16::MAX } else { tcon.duration + dt };
            let aged_con = TargetCondition {
                condition_id: tcon.condition_id,
                duration,
                repeat_effect_countdowns: effect_cds,
                repeat_hit_countdowns: hit_cds,
            };
            self.conditions.set(i, aged_con);
            i = i + 1;
        }
        Ok(())
    }

    /// How far this character's clock moves in `dt` ticks, after its live conditions age by `dt`
    /// (they age while it is down too).
    pub fn dclock(&mut self, dt: u16, conditions: &ConditionEncyclopedia, statblocks: &StatBlockEncyclopedia) -> (r: Result<u16, BattleError>)
        ensures
            match r {
                Ok(v) => clock_gain(*old(self), dt, *statblocks) == Some(v) && conditions_known(*old(self), *conditions)
                    && conditions_aged(*old(self), *final(self), *conditions, dt),
                Err(e) => *final(self) == *old(self) && match e {
                    BattleError::Formula(fe) => !is_down_spec(*old(self)) && stat_value(*old(self), "Speed"@, 0, *statblocks) == Err::<i32, FormulaError>(fe),
                    BattleError::MissingCondition(_) => !conditions_known(*old(self), *conditions),
                    _ => false,
                },
            },
    {
        let down = self.is_down();
        proof {
            reveal_strlit("Speed");
        }
        let speed: i32 = if down {
            0
        } else {
            match self.get_stat_val(String::from_str("Speed"), 0, statblocks) {
                Ok(speed) => speed,
                Err(e) => {
                    return Err(BattleError::Formula(e));
                },
            }
        };
        let rate: u16 = if down {
            0
        } else if speed < 0 {
            0
        } else if speed > u16::MAX as i32 {
            u16::MAX
        } else {
            speed as u16
        };
        assert(!down ==> rate == speed_rate(speed) && stat_value(*self, "Speed"@, 0, *statblocks) == Ok::<i32, FormulaError>(speed));
        match self.experience_conditions(dt, conditions) {
            Ok(()) => {},
            Err(e) => {
                return Err(e);
            },
        }
        assert(dt as u32 * rate as u32 <= 65535 * 65535) by (nonlinear_arith)
            requires
                dt <= 65535,
                rate <= 65535,
        ;
        let v: u32 = dt as u32 * rate as u32;
        if v > u16::MAX as u32 {
            Ok(u16::MAX)
        } else {
            Ok(v as u16)
        }
    }
}

/// Every pool that `costs` names is one of `pools`.
pub open spec fn pools_present(pools: Seq<(String, Pool)>, costs: Seq<(String, u32)>) -> bool {
    forall|j: int| 0 <= j < costs.len() ==> (#[trigger] find_from(pools, costs[j].0@, 0)) is Some
}

impl Character {
    /// Whether this character has every pool that `costs` names.
    pub fn has_pools_for(&self, costs: &Costs) -> (r: bool)
        ensures
            r == pools_present(self.pools.entries@, costs.entries@),
    {
        let mut j: usize = 0;
        while j < costs.entries.len()
            invariant
                j <= costs.entries@.len(),
                forall|k: int| 0 <= k < j ==> (#[trigger] find_from(self.pools.entries@, costs.entries@[k].0@, 0)) is Some,
            decreases costs.entries@.len() - j,
        {
            if self.pools.position(&costs.entries[j].0).is_none() {
                return false;
            }
            j = j + 1;
        }
        true
    }
}

/// An entry-for-entry copy of `costs`.
pub fn copy_costs(costs: &Costs) -> (r: Costs)
    ensures
        r.entries@ == costs.entries@,
{
    let mut r: Costs = Table::new();
    let mut i: usize = 0;
    while i < costs.entries.len()
        invariant
            i <= costs.entries@.len(),
            r.entries@ == costs.entries@.subrange(0, i as int),
        decreases costs.entries@.len() - i,
    {
        r.entries.push((costs.entries[i].0.clone(), costs.entries[i].1));
        i = i + 1;
        assert(r.entries@ =~= costs.entries@.subrange(0, i as int));
    }
    assert(r.entries@ =~= costs.entries@);
    r
}

impl Character {
    /// Uses `action` on `target`: pays the action's costs and gives the hits of all its effects,
    /// in order, each amount resolved. Fails, paying nothing, where an effect is missing or a
    /// formula has no value.
    pub fn use_action_on(
        &mut self,
        action: &Action,
        target: &Character,
        effect_enc: &EffectEncyclopedia,
        statblocks: &StatBlockEncyclopedia,
    ) -> (r: Result<Hits, BattleError>)
        requires
            pay(old(self).pools.entries@, action.costs.entries@) is Some,
        ensures
            r is Ok <==> action_hits(action.effects@, *effect_enc, *old(self), *target, *statblocks) is Some,
            match r {
                Ok(hits) => {
                    &&& Some(final(self).pools.entries@) == pay(old(self).pools.entries@, action.costs.entries@)
                    &&& action_hits(action.effects@, *effect_enc, *old(self), *target, *statblocks) == Some(hits@)
                },
                Err(_) => *final(self) == *old(self),
            },
    {
        let ghost me = *self;
        let n = action.effects.len();
        let mut hits: Hits = Vec::new();
        let mut e: usize = 0;
        proof {
            assert(action.effects@.subrange(0, n as int) =~= action.effects@);
            assert(hits@ + Seq::<Hit>::empty() =~= Seq::<Hit>::empty());
        }
        while e < n
            invariant
                n == action.effects@.len(),
                e <= n,
                *self == me,
                action_hits(action.effects@, *effect_enc, me, *target, *statblocks) == match action_hits(
                    action.effects@.subrange(e as int, n as int),
                    *effect_enc,
                    me,
                    *target,
                    *statblocks,
                ) {
                    Some(rest) => Some(hits@ + rest),
                    None => None::<Seq<Hit>>,
                },
            decreases n - e,
        {
            let ghost sub = action.effects@.subrange(e as int, n as int);
            proof {
                assert(sub[0] == action.effects@[e as int]);
                assert(sub.drop_first() =~= action.effects@.subrange(e + 1, n as int));
            }
            let effect = match effect_enc.resolve(&action.effects[e]) {
                Some(x) => x,
                None => {
                    let id = match &action.effects[e] {
                        IndexedOrLiteral::Index(id) => *id,
                        IndexedOrLiteral::Literal(x) => x.id,
                    };
                    return Err(BattleError::MissingEffect(id));
                },
            };
            let mut more = match effect.actor_affect_target(self, target, statblocks) {
                Ok(h) => h,
                Err(fe) => {
                    return Err(BattleError::Formula(fe));
                },
            };
            let ghost h0 = hits@;
            let ghost m0 = more@;
            proof {
                assert forall|j: int| 0 <= j < effect.hits@.len() implies (#[trigger] resolved_amount(effect.hits@[j].amount, me, *target, *statblocks)) is Ok by {
                    assert(m0[j].pool == effect.hits@[j].pool);
                }
                assert(m0 =~= resolved_hits_of(effect.hits@, me, *target, *statblocks));
                assert(effect_hits(effect.hits@, me, *target, *statblocks) == Some(m0));
                assert(effect_enc.resolved(sub[0]) == Some(*effect));
            }
            hits.append(&mut more);
            proof {
                match action_hits(sub.drop_first(), *effect_enc, me, *target, *statblocks) {
                    Some(rest) => {
                        assert(h0 + (m0 + rest) =~= hits@ + rest);
                    },
                    None => {},
                }
            }
            e = e + 1;
        }
        proof {
            assert(action.effects@.subrange(n as int, n as int) =~= Seq::<IndexedOrLiteral<Effect>>::empty());
            assert(hits@ + Seq::<Hit>::empty() =~= hits@);
        }
        self.spend_action_costs(action);
        Ok(hits)
    }
}

/// The hits of `hits` as `actor` deals them to `target`, each amount a resolved constant, or
/// `None` where one has no value.
pub open spec fn effect_hits(hits: Seq<Hit>, actor: Character, target: Character, sb: StatBlockEncyclopedia) -> Option<Seq<Hit>> {
    if forall|j: int| 0 <= j < hits.len() ==> (#[trigger] resolved_amount(hits[j].amount, actor, target, sb)) is Ok {
        Some(resolved_hits_of(hits, actor, target, sb))
    } else {
        None
    }
}

pub open spec fn resolved_hits_of(hits: Seq<Hit>, actor: Character, target: Character, sb: StatBlockEncyclopedia) -> Seq<Hit> {
    Seq::new(
        hits.len(),
        |j: int| Hit { pool: hits[j].pool, amount: HitAmt::Constant(resolved_amount(hits[j].amount, actor, target, sb)->Ok_0) },
    )
}

/// The hits of every effect of an action, effect after effect, or `None` where an effect is
/// missing or one of its amounts has no value.
pub open spec fn action_hits(
    effects: Seq<IndexedOrLiteral<Effect>>,
    enc: EffectEncyclopedia,
    actor: Character,
    target: Character,
    sb: StatBlockEncyclopedia,
) -> Option<Seq<Hit>>
    decreases effects.len(),
{
    if effects.len() == 0 {
        Some(Seq::empty())
    } else {
        match enc.resolved(effects[0]) {
            None => None,
            Some(e) => match effect_hits(e.hits@, actor, target, sb) {
                None => None,
                Some(h) => match action_hits(effects.drop_first(), enc, actor, target, sb) {
                    Some(rest) => Some(h + rest),
                    None => None,
                },
            },
        }
    }
}

/// Two characters that are up and whose Speed derives to the same value gain the same on every
/// tick, so their clocks, once equal, stay equal; a character that is down gains nothing.
pub proof fn lemma_clock_gain_fair(c1: Character, c2: Character, dt: u16, sb: StatBlockEncyclopedia)
    ensures
        !is_down_spec(c1) && !is_down_spec(c2) && stat_value(c1, "Speed"@, 0, sb) == stat_value(c2, "Speed"@, 0, sb)
            ==> clock_gain(c1, dt, sb) == clock_gain(c2, dt, sb),
        is_down_spec(c1) ==> clock_gain(c1, dt, sb) == Some(0u16),
{
}

impl Character {
    /// Offers a condition to this character. Conditions are not taken on yet: the character stays
    /// as it is and the offer is reported as accepted.
    pub fn take_condition(&mut self, cond: &Condition) -> (r: bool)
        ensures
            r,
            *final(self) == *old(self),
    {
        true
    }
}

} // verus!
