use std::collections::VecDeque;
use vstd::prelude::*;

use crate::action::{
    menus_along, message_text, option_along, prompts_are, prompts_resolve, selection_of, Action, CharacterAction, Scope,
};
use crate::chance::random_below;
use crate::character::{dead_end, options_along, reachable};
use crate::character::{copy_costs, hit_result, is_down_spec, pay, pools_present, Character, Pool};
use crate::common::{copy_hits, IndexedOrLiteral, Key};
use crate::effect::Effect;
use crate::party::{party_sound, lemma_advance_keeps_members, lemma_living_from, lemma_same_standing, living, same_members, CLOCK_CEILING};
use crate::character::{clock_gain, conditions_known};
use crate::text::views;
use crate::common::{Hit, HitAmt, Name};
use crate::encyclopedia::{ActionEncyclopedia, ConditionEncyclopedia, EffectEncyclopedia, StatBlockEncyclopedia};
use crate::error::BattleError;
use crate::formula::{try_eval_hit, hit_formula_value, FormulaError};
use crate::party::Party;
use crate::table::{find_from, lemma_find_from, lemma_find_from_update};
use crate::text::{int_text, signed_decimal};

verus! {

/// A side-tagged formation slot: a member of the allies or of the baddies.
#[derive(Debug, Clone, Copy, PartialEq, Eq, Structural)]
pub enum PlayerIndex {
    Ally(usize),
    Baddy(usize),
}

/// An effect waiting to be resolved: who acts, on whom, and the hits it carries.
#[derive(Debug)]
pub struct TargetedEffect {
    pub actor_pi: PlayerIndex,
    pub target_pi: PlayerIndex,
    pub hits: Vec<Hit>,
}

/// A resolved hit waiting to be applied.
#[derive(Debug)]
pub struct TargetedHit {
    pub target_pi: PlayerIndex,
    pub pool: Name,
    pub amount: i32,
}

/// A battle between two parties: the input state (menu path, targets), the queues of pending
/// messages, effects and hits, whose turn it is, and the read-only tables it consults.
pub struct Battle {
    pub allies: Party,
    pub baddies: Party,
    pub ended: bool,
    pub selections: Vec<usize>,
    pub text: VecDeque<String>,
    pub current_pc_idx: Option<PlayerIndex>,
    pub current_npc_idx: Option<PlayerIndex>,
    pub targets: Vec<PlayerIndex>,
    pub effects: VecDeque<TargetedEffect>,
    pub hits: VecDeque<TargetedHit>,
    pub action_enc: ActionEncyclopedia,
    pub effect_enc: EffectEncyclopedia,
    pub condition_enc: ConditionEncyclopedia,
    pub statblocks: StatBlockEncyclopedia,
}

/// The message for a hit of `v` on pool `pool` of the character named `name`.
pub open spec fn hit_message(name: Seq<char>, v: i32, pool: Seq<char>) -> Seq<char> {
    if v > 0 {
        name + " took "@ + signed_decimal(v as int) + " "@ + pool + " damage!"@
    } else if v == 0 {
        "No effect on "@ + name + "..."@
    } else {
        name + " was healed for "@ + signed_decimal(-v) + " "@ + pool + "!"@
    }
}

/// What a hit template amounts to for the given actor and target.
pub open spec fn hit_amount(a: HitAmt, actor: Character, target: Character, sb: StatBlockEncyclopedia) -> Result<i32, FormulaError> {
    match a {
        HitAmt::Constant(v) => Ok(v),
        HitAmt::Formula(f) => hit_formula_value(Some(actor), target, sb, f@),
    }
}

pub open spec fn slot_of(pi: PlayerIndex) -> int {
    match pi {
        PlayerIndex::Ally(i) => i as int,
        PlayerIndex::Baddy(i) => i as int,
    }
}

/// The resolved form of every hit of `hits`, all aimed at `target_pi`.
pub open spec fn resolved_hits(
    hits: Seq<Hit>,
    target_pi: PlayerIndex,
    actor: Character,
    target: Character,
    sb: StatBlockEncyclopedia,
    out: Seq<TargetedHit>,
) -> bool {
    &&& out.len() == hits.len()
    &&& forall|j: int| 0 <= j < hits.len() ==> {
        &&& (#[trigger] out[j]).target_pi == target_pi
        &&& out[j].pool == hits[j].pool
        &&& hit_amount(hits[j].amount, actor, target, sb) == Ok::<i32, FormulaError>(out[j].amount)
    }
}

impl Battle {
    pub open spec fn wf(&self) -> bool {
        &&& self.allies.wf()
        &&& self.baddies.wf()
    }

    /// The party that `pi` points into.
    pub open spec fn party_of(&self, pi: PlayerIndex) -> Party {
        match pi {
            PlayerIndex::Ally(_) => self.allies,
            PlayerIndex::Baddy(_) => self.baddies,
        }
    }

    /// The character that `pi` names, if its slot exists.
    pub open spec fn member(&self, pi: PlayerIndex) -> Option<Character> {
        let p = self.party_of(pi);
        if 0 <= slot_of(pi) < p.size() {
            Some(p.at(slot_of(pi)))
        } else {
            None
        }
    }

    /// Pool `pool` of the character that `pi` names.
    pub open spec fn pool_at(&self, pi: PlayerIndex, pool: Seq<char>) -> Option<Pool> {
        match self.member(pi) {
            Some(c) => c.pools.lookup(pool),
            None => None,
        }
    }

    /// The queues and the input state are untouched.
    pub open spec fn same_state(&self, other: &Battle) -> bool {
        &&& self.ended == other.ended
        &&& self.selections == other.selections
        &&& self.current_pc_idx == other.current_pc_idx
        &&& self.current_npc_idx == other.current_npc_idx
        &&& self.targets == other.targets
        &&& self.action_enc == other.action_enc
        &&& self.effect_enc == other.effect_enc
        &&& self.condition_enc == other.condition_enc
        &&& self.statblocks == other.statblocks
    }

    /// A battle between `allies` and `baddies`, opening with the message "Battle start!".
    pub fn new(
        allies: Party,
        baddies: Party,
        action_enc: ActionEncyclopedia,
        effect_enc: EffectEncyclopedia,
        condition_enc: ConditionEncyclopedia,
        statblocks: StatBlockEncyclopedia,
    ) -> (r: Battle)
        requires
            allies.wf(),
            baddies.wf(),
        ensures
            r.wf(),
            r.allies == allies,
            r.baddies == baddies,
            !r.ended,
            r.text@.len() == 1,
            r.text@[0]@ == "Battle start!"@,
            r.selections@.len() == 0,
            r.targets@.len() == 0,
            r.effects@.len() == 0,
            r.hits@.len() == 0,
            r.current_pc_idx is None,
            r.current_npc_idx is None,
            r.action_enc == action_enc,
            r.effect_enc == effect_enc,
            r.condition_enc == condition_enc,
            r.statblocks == statblocks,
    {
        let mut text: VecDeque<String> = VecDeque::new();
        text.push_back(String::from_str("Battle start!"));
        Battle {
            allies,
            baddies,
            ended: false,
            selections: Vec::new(),
            text,
            current_pc_idx: None,
            current_npc_idx: None,
            targets: Vec::new(),
            effects: VecDeque::new(),
            hits: VecDeque::new(),
            action_enc,
            effect_enc,
            condition_enc,
            statblocks,
        }
    }

    /// The message waiting to be read, if any.
    pub fn get_text(&self) -> (r: Option<&String>)
        ensures
            match r {
                Some(t) => self.text@.len() > 0 && *t == self.text@[0],
                None => self.text@.len() == 0,
            },
    {
        if self.text.len() > 0 {
            Some(&self.text[0])
        } else {
            None
        }
    }

    /// Removes the message waiting to be read.
    pub fn pop_text(&mut self) -> (r: Option<String>)
        ensures
            match r {
                Some(t) => old(self).text@.len() > 0 && t == old(self).text@[0] && final(self).text@ == old(self).text@.drop_first(),
                None => old(self).text@.len() == 0 && final(self).text@ == old(self).text@,
            },
            final(self).allies == old(self).allies,
            final(self).baddies == old(self).baddies,
            final(self).effects == old(self).effects,
            final(self).hits == old(self).hits,
            final(self).same_state(old(self)),
    {
        let r = self.text.pop_front();
        proof {
            if r is Some {
                assert(self.text@ =~= old(self).text@.drop_first());
            }
        }
        r
    }

    /// The character that `pi` names.
    pub fn get_ch_by_pi(&self, p_idx: &PlayerIndex) -> (r: Option<&Character>)
        requires
            self.wf(),
        ensures
            match r {
                Some(c) => self.member(*p_idx) == Some(*c),
                None => self.member(*p_idx) is None,
            },
    {
        match p_idx {
            PlayerIndex::Ally(i) => self.allies.get_ch_by_pos(*i),
            PlayerIndex::Baddy(i) => self.baddies.get_ch_by_pos(*i),
        }
    }

    /// The character that `p_idx` names, if any.
    pub fn get_character(&self, p_idx: &Option<PlayerIndex>) -> (r: Option<&Character>)
        requires
            self.wf(),
        ensures
            match p_idx {
                Some(pi) => match r {
                    Some(c) => self.member(*pi) == Some(*c),
                    None => self.member(*pi) is None,
                },
                None => r is None,
            },
    {
        match p_idx {
            Some(pi) => self.get_ch_by_pi(pi),
            None => None,
        }
    }

    /// The player character whose turn it is.
    pub fn get_current_pc(&self) -> (r: Option<&Character>)
        requires
            self.wf(),
        ensures
            match self.current_pc_idx {
                Some(pi) => match r {
                    Some(c) => self.member(pi) == Some(*c),
                    None => self.member(pi) is None,
                },
                None => r is None,
            },
    {
        self.get_character(&self.current_pc_idx)
    }

    /// The non-player character whose turn it is.
    pub fn get_current_npc(&self) -> (r: Option<&Character>)
        requires
            self.wf(),
        ensures
            match self.current_npc_idx {
                Some(pi) => match r {
                    Some(c) => self.member(pi) == Some(*c),
                    None => self.member(pi) is None,
                },
                None => r is None,
            },
    {
        self.get_character(&self.current_npc_idx)
    }

    /// Whether the character that `pi` names is down; a slot with nobody in it is not.
    pub fn is_player_down(&self, pi: &PlayerIndex) -> (r: bool)
        requires
            self.wf(),
        ensures
            r == (self.member(*pi) matches Some(c) && is_down_spec(c)),
    {
        match self.get_ch_by_pi(pi) {
            Some(c) => c.is_down(),
            None => false,
        }
    }

    /// Whether it is the turn of the player character that `pi` names.
    pub fn is_pc_turn(&self, pi: &PlayerIndex) -> (r: bool)
        ensures
            r == (self.current_pc_idx == Some(*pi)),
    {
        match &self.current_pc_idx {
            Some(cpi) => *cpi == *pi,
            None => false,
        }
    }

    /// Applies the first queued hit to its target and queues the message that reports it. With no
    /// hit queued nothing happens. Fails, changing nothing, where the target or its pool is
    /// missing.
    pub fn handle_hit(&mut self) -> (r: Result<(), BattleError>)
        requires
            old(self).wf(),
        ensures
            final(self).wf(),
            final(self).same_state(old(self)),
            final(self).effects == old(self).effects,
            old(self).hits@.len() == 0 ==> r is Ok && *final(self) == *old(self),
            old(self).hits@.len() > 0 ==> ({
                let th = old(self).hits@[0];
                match r {
                    Ok(()) => {
                        &&& old(self).pool_at(th.target_pi, th.pool@) matches Some(p)
                        &&& final(self).pool_at(th.target_pi, th.pool@) == Some(Pool { current: hit_result(p.current as int, th.amount as int, p.maximum as int) as i32, ..p })
                        &&& final(self).hits@ == old(self).hits@.drop_first()
                        &&& final(self).text@.len() == old(self).text@.len() + 1
                        &&& final(self).text@.drop_last() == old(self).text@
                        &&& final(self).text@.last()@ == hit_message(old(self).member(th.target_pi)->Some_0.name@, th.amount, th.pool@)
                        &&& match th.target_pi {
                            PlayerIndex::Ally(_) => final(self).baddies == old(self).baddies,
                            PlayerIndex::Baddy(_) => final(self).allies == old(self).allies,
                        }
                    },
                    Err(e) => *final(self) == *old(self) && match e {
                        BattleError::MissingCharacter => old(self).member(th.target_pi) is None,
                        BattleError::MissingPool => old(self).member(th.target_pi) is Some && old(self).pool_at(th.target_pi, th.pool@) is None,
                        _ => false,
                    },
                }
            }),
    {
        if self.hits.len() == 0 {
            return Ok(());
        }
        let target_pi = self.hits[0].target_pi;
        let name = match self.get_ch_by_pi(&target_pi) {
            Some(c) => {
                if c.get_pool_vals(self.hits[0].pool.clone()).is_none() {
                    return Err(BattleError::MissingPool);
                }
                c.copy_name()
            },
            None => {
                return Err(BattleError::MissingCharacter);
            },
        };
        let th = match self.hits.pop_front() {
            Some(th) => th,
            None => {
                return Ok(());
            },
        };
        proof {
            assert(self.hits@ =~= old(self).hits@.drop_first());
        }
        let v = match th.target_pi {
            PlayerIndex::Ally(i) => match self.allies.get_mut_ch_by_pos(i) {
                Some(c) => {
                    let ghost oc = *c;
                    proof { lemma_find_from(oc.pools.entries@, th.pool@, 0); }
                    let v = c.take_hit(&th.pool, th.amount);
                    proof {
                        let k = find_from(oc.pools.entries@, th.pool@, 0)->Some_0;
                        lemma_find_from_update(oc.pools.entries@, th.pool@, k, c.pools.entries@[k], 0);
                    }
                    v
                },
                None => {
                    return Err(BattleError::MissingCharacter);
                },
            },
            PlayerIndex::Baddy(i) => match self.baddies.get_mut_ch_by_pos(i) {
                Some(c) => {
                    let ghost oc = *c;
                    proof { lemma_find_from(oc.pools.entries@, th.pool@, 0); }
                    let v = c.take_hit(&th.pool, th.amount);
                    proof {
                        let k = find_from(oc.pools.entries@, th.pool@, 0)->Some_0;
                        lemma_find_from_update(oc.pools.entries@, th.pool@, k, c.pools.entries@[k], 0);
                    }
                    v
                },
                None => {
                    return Err(BattleError::MissingCharacter);
                },
            },
        };
        let mut msg = name;
        if v > 0 {
            msg.append(" took ");
            msg.append(int_text(v as i64).as_str());
            msg.append(" ");
            msg.append(th.pool.as_str());
            msg.append(" damage!");
        } else if v == 0 {
            let mut m = String::from_str("No effect on ");
            m.append(msg.as_str());
            m.append("...");
            msg = m;
        } else {
            msg.append(" was healed for ");
            msg.append(int_text(-(v as i64)).as_str());
            msg.append(" ");
            msg.append(th.pool.as_str());
            msg.append("!");
        }
        proof {
            reveal_strlit(" took ");
            reveal_strlit(" ");
            reveal_strlit(" damage!");
            reveal_strlit("No effect on ");
            reveal_strlit("...");
            reveal_strlit(" was healed for ");
            reveal_strlit("!");
        }
        self.text.push_back(msg);
        Ok(())
    }
}

/// The battle after `reset`: no turn, no menu path, no queued effects or hits.
pub open spec fn is_reset(before: Battle, after: Battle) -> bool {
    &&& after.current_pc_idx is None
    &&& after.current_npc_idx is None
    &&& after.selections@.len() == 0
    &&& after.effects@.len() == 0
    &&& after.hits@.len() == 0
    &&& after.targets == before.targets
    &&& after.allies == before.allies
    &&& after.baddies == before.baddies
    &&& after.ended == before.ended
}

/// The names of the characters that `targets` name, or `None` where one names nobody.
pub open spec fn names_of(b: Battle, targets: Seq<PlayerIndex>) -> Option<Seq<Seq<char>>> {
    if forall|j: int| 0 <= j < targets.len() ==> (#[trigger] b.member(targets[j])) is Some {
        Some(Seq::new(targets.len(), |j: int| b.member(targets[j])->Some_0.name@))
    } else {
        None
    }
}

impl Battle {
    /// Resolves the first queued effect: every hit it carries, a constant as it is and a formula
    /// evaluated with the stored actor and target, joins the hit queue. With no effect queued
    /// nothing happens. Fails, changing nothing, where the actor or the target is missing or a
    /// formula has no value.
    pub fn handle_effect(&mut self) -> (r: Result<(), BattleError>)
        requires
            old(self).wf(),
        ensures
            old(self).effects@.len() == 0 ==> r is Ok && *final(self) == *old(self),
            old(self).effects@.len() > 0 ==> ({
                let te = old(self).effects@[0];
                match r {
                    Ok(()) => {
                        &&& old(self).member(te.actor_pi) is Some
                        &&& old(self).member(te.target_pi) is Some
                        &&& final(self).effects@ == old(self).effects@.drop_first()
                        &&& final(self).hits@.len() >= old(self).hits@.len()
                        &&& final(self).hits@.subrange(0, old(self).hits@.len() as int) == old(self).hits@
                        &&& resolved_hits(te.hits@, te.target_pi, old(self).member(te.actor_pi)->Some_0, old(self).member(te.target_pi)->Some_0,
                            old(self).statblocks, final(self).hits@.subrange(old(self).hits@.len() as int, final(self).hits@.len() as int))
                        &&& final(self).allies == old(self).allies
                        &&& final(self).baddies == old(self).baddies
                        &&& final(self).text == old(self).text
                        &&& final(self).same_state(old(self))
                    },
                    Err(e) => *final(self) == *old(self) && match e {
                        BattleError::MissingCharacter => old(self).member(te.actor_pi) is None || old(self).member(te.target_pi) is None,
                        BattleError::Formula(fe) => exists|j: int| 0 <= j < te.hits@.len() && hit_amount(#[trigger] te.hits@[j].amount, old(self).member(te.actor_pi)->Some_0, old(self).member(te.target_pi)->Some_0, old(self).statblocks) == Err::<i32, FormulaError>(fe),
                        _ => false,
                    },
                }
            }),
            final(self).wf(),
    {
        if self.effects.len() == 0 {
            return Ok(());
        }
        let mut out: Vec<TargetedHit> = Vec::new();
        {
            let te = &self.effects[0];
            let actor = match self.get_ch_by_pi(&te.actor_pi) {
                Some(a) => a,
                None => {
                    return Err(BattleError::MissingCharacter);
                },
            };
            let target = match self.get_ch_by_pi(&te.target_pi) {
                Some(t) => t,
                None => {
                    return Err(BattleError::MissingCharacter);
                },
            };
            let mut j: usize = 0;
            while j < te.hits.len()
                invariant
                    *self == *old(self),
                    self.wf(),
                    self.effects@.len() > 0,
                    *te == self.effects@[0],
                    self.member(te.actor_pi) == Some(*actor),
                    self.member(te.target_pi) == Some(*target),
                    j <= te.hits@.len(),
                    out@.len() == j,
                    forall|k: int| 0 <= k < j ==> {
                        &&& (#[trigger] out@[k]).target_pi == te.target_pi
                        &&& out@[k].pool == te.hits@[k].pool
                        &&& hit_amount(te.hits@[k].amount, *actor, *target, self.statblocks) == Ok::<i32, FormulaError>(out@[k].amount)
                    },
                decreases te.hits@.len() - j,
            {
                let hit = &te.hits[j];
                let amount = match &hit.amount {
                    HitAmt::Constant(v) => *v,
                    HitAmt::Formula(f) => match try_eval_hit(f, Some(actor), target, &self.statblocks) {
                        Ok(v) => v,
                        Err(e) => {
                            assert(hit_amount(te.hits@[j as int].amount, *actor, *target, self.statblocks) == Err::<i32, FormulaError>(e));
                            return Err(BattleError::Formula(e));
                        },
                    },
                };
                out.push(TargetedHit { target_pi: te.target_pi, pool: hit.pool.clone(), amount });
                j = j + 1;
            }
        }
        let ghost before_hits = self.hits@;
        let _ = self.effects.pop_front();
        proof {
            assert(self.effects@ =~= old(self).effects@.drop_first());
        }
        let mut j: usize = 0;
        let ghost out_v = out@;
        while j < out.len()
            invariant
                j <= out@.len(),
                out@ == out_v,
                self.hits@.len() == before_hits.len() + j,
                self.hits@.subrange(0, before_hits.len() as int) == before_hits,
                self.hits@.subrange(before_hits.len() as int, self.hits@.len() as int) == out_v.subrange(0, j as int),
                self.wf(),
                self.allies == old(self).allies,
                self.baddies == old(self).baddies,
                self.text == old(self).text,
                self.effects@ == old(self).effects@.drop_first(),
                self.statblocks == old(self).statblocks,
                self.same_state(old(self)),
            decreases out@.len() - j,
        {
            let th = TargetedHit { target_pi: out[j].target_pi, pool: out[j].pool.clone(), amount: out[j].amount };
            self.hits.push_back(th);
            j = j + 1;
            proof {
                assert(self.hits@.subrange(0, before_hits.len() as int) =~= before_hits);
                assert(self.hits@.subrange(before_hits.len() as int, self.hits@.len() as int) =~= out_v.subrange(0, j as int));
            }
        }
        proof {
            assert(out_v.subrange(0, out_v.len() as int) =~= out_v);
        }
        Ok(())
    }

    /// Ends the current turn and empties the menu path and the effect and hit queues.
    pub fn reset(&mut self)
        ensures
            is_reset(*old(self), *final(self)),
            final(self).text == old(self).text,
            final(self).statblocks == old(self).statblocks,
            final(self).action_enc == old(self).action_enc,
    {
        self.current_npc_idx = None;
        self.current_pc_idx = None;
        self.selections = Vec::new();
        self.effects = VecDeque::new();
        self.hits = VecDeque::new();
    }

    /// Ends the battle once nothing is pending and one side is all down: a defeat where every ally
    /// is down (checked first), a victory where every baddy is. Returns whether the battle has
    /// ended.
    pub fn check_end_game(&mut self) -> (r: bool)
        requires
            old(self).wf(),
        ensures
            final(self).wf(),
            r == final(self).ended,
            old(self).ended ==> *final(self) == *old(self),
            !old(self).ended ==> if old(self).effects@.len() == 0 && old(self).hits@.len() == 0 && old(self).allies.all_down_spec() {
                &&& final(self).ended
                &&& is_reset(*old(self), Battle { ended: false, ..*final(self) })
                &&& final(self).text@.len() == old(self).text@.len() + 1
                &&& final(self).text@.drop_last() == old(self).text@
                &&& final(self).text@.last()@ == "LOooOoSER!"@
            } else if old(self).effects@.len() == 0 && old(self).hits@.len() == 0 && old(self).baddies.all_down_spec() {
                &&& final(self).ended
                &&& is_reset(*old(self), Battle { ended: false, ..*final(self) })
                &&& final(self).text@.len() == old(self).text@.len() + 3
                &&& final(self).text@.subrange(0, old(self).text@.len() as int) == old(self).text@
                &&& final(self).text@[old(self).text@.len() as int]@ == "A winner is you!"@
                &&& final(self).text@[(old(self).text@.len() + 1) as int]@ == "You'd probably earn some experience points now."@
                &&& final(self).text@[(old(self).text@.len() + 2) as int]@ == "You'd probably find some phat loot now."@
            } else {
                *final(self) == *old(self)
            },
    {
        if self.ended {
            return true;
        }
        if self.effects.len() == 0 && self.hits.len() == 0 {
            if self.allies.all_down() {
                self.reset();
                self.text.push_back(String::from_str("LOooOoSER!"));
                self.ended = true;
            } else if self.baddies.all_down() {
                self.reset();
                let ghost t0 = self.text@;
                self.text.push_back(String::from_str("A winner is you!"));
                self.text.push_back(String::from_str("You'd probably earn some experience points now."));
                self.text.push_back(String::from_str("You'd probably find some phat loot now."));
                proof {
                    assert(self.text@.subrange(0, t0.len() as int) =~= t0);
                }
                self.ended = true;
            }
        }
        self.ended
    }

    /// The names of the characters that `targets` name.
    pub fn get_target_names_of(&self, targets: &Vec<PlayerIndex>) -> (r: Option<Vec<Name>>)
        requires
            self.wf(),
        ensures
            match r {
                Some(v) => names_of(*self, targets@) == Some(v@.map_values(|n: String| n@)),
                None => names_of(*self, targets@) is None,
            },
    {
        let mut names: Vec<Name> = Vec::new();
        let mut j: usize = 0;
        while j < targets.len()
            invariant
                self.wf(),
                j <= targets@.len(),
                names@.len() == j,
                forall|k: int| 0 <= k < j ==> (#[trigger] self.member(targets@[k])) is Some && names@[k]@ == self.member(targets@[k])->Some_0.name@,
            decreases targets@.len() - j,
        {
            match self.get_ch_by_pi(&targets[j]) {
                Some(c) => {
                    names.push(c.copy_name());
                },
                None => {
                    return None;
                },
            }
            j = j + 1;
        }
        assert(names@.map_values(|n: String| n@) =~= Seq::new(targets@.len(), |k: int| self.member(targets@[k])->Some_0.name@));
        Some(names)
    }
}

/// The index of the first `x` in `s` at or after `i`.
pub open spec fn first_index(s: Seq<usize>, x: usize, i: int) -> Option<int>
    decreases s.len() - i,
{
    if i < 0 || i >= s.len() {
        None
    } else if s[i] == x {
        Some(i)
    } else {
        first_index(s, x, i + 1)
    }
}

/// The living slot after (`forward`) or before `cur` among `l`, wrapping around; the first
/// living slot where `cur` is not among them; `cur` where nobody lives.
pub open spec fn cycled(l: Seq<usize>, cur: usize, forward: bool) -> usize {
    if l.len() == 0 {
        cur
    } else {
        match first_index(l, cur, 0) {
            Some(k) => if forward {
                if k + 1 == l.len() {
                    l[0]
                } else {
                    l[k + 1]
                }
            } else if k == 0 {
                l[l.len() - 1]
            } else {
                l[k - 1]
            },
            None => l[0],
        }
    }
}

/// The next (`forward`) or previous menu position among `len`, wrapping around.
pub open spec fn stepped(i: usize, len: usize, forward: bool) -> usize {
    if forward {
        if i + 1 >= len {
            0
        } else {
            (i + 1) as usize
        }
    } else if i == 0 {
        (len - 1) as usize
    } else {
        (i - 1) as usize
    }
}

pub open spec fn allies_of(slots: Seq<usize>) -> Seq<PlayerIndex> {
    slots.map_values(|s: usize| PlayerIndex::Ally(s))
}

pub open spec fn baddies_of(slots: Seq<usize>) -> Seq<PlayerIndex> {
    slots.map_values(|s: usize| PlayerIndex::Baddy(s))
}

/// The targets a player character's action starts with: the first living enemy or ally for a
/// single target, every living enemy or ally for a side, every living member of both sides
/// (enemies first) for all. `None` for the scopes that targeting does not support.
pub open spec fn initial_targets(scope: Scope, allies: Party, baddies: Party) -> Option<Seq<PlayerIndex>> {
    match scope {
        Scope::Enemy => Some(if living(baddies).len() > 0 { seq![PlayerIndex::Baddy(living(baddies)[0])] } else { Seq::empty() }),
        Scope::Ally => Some(if living(allies).len() > 0 { seq![PlayerIndex::Ally(living(allies)[0])] } else { Seq::empty() }),
        Scope::Enemies => Some(baddies_of(living(baddies))),
        Scope::Allies => Some(allies_of(living(allies))),
        Scope::All => Some(baddies_of(living(baddies)) + allies_of(living(allies))),
        _ => None,
    }
}

/// The action that the current player character's menu path leads to.
pub open spec fn selected_action(b: Battle) -> Option<Action> {
    match b.current_pc_idx {
        Some(pi) => match b.member(pi) {
            Some(c) => selection_of(c.actions, b.selections@, b.action_enc),
            None => None,
        },
        None => None,
    }
}

/// The effect queue entries for `actor` using `effects` on each of `targets`, target by target.
pub open spec fn queued_for(
    actor: PlayerIndex,
    targets: Seq<PlayerIndex>,
    effects: Seq<IndexedOrLiteral<Effect>>,
    enc: EffectEncyclopedia,
    out: Seq<TargetedEffect>,
) -> bool {
    &&& out.len() == targets.len() * effects.len()
    &&& forall|t: int, e: int| 0 <= t < targets.len() && 0 <= e < effects.len() ==> {
        &&& (#[trigger] out[t * effects.len() + e]).actor_pi == actor
        &&& out[t * effects.len() + e].target_pi == targets[t]
        &&& enc.resolved(#[trigger] effects[e]) matches Some(eff) && out[t * effects.len() + e].hits@ == eff.hits@
    }
}

/// Every effect of `effects` can be found.
pub open spec fn effects_resolve(effects: Seq<IndexedOrLiteral<Effect>>, enc: EffectEncyclopedia) -> bool {
    forall|e: int| 0 <= e < effects.len() ==> (#[trigger] enc.resolved(effects[e])) is Some
}

proof fn lemma_index_bound(t: int, e: int, n: int, m: int)
    requires
        0 <= t < n,
        0 <= e < m,
    ensures
        0 <= t * m + e < n * m,
{
    assert(t * m + e < n * m) by (nonlinear_arith)
        requires
            0 <= t < n,
            0 <= e < m,
    ;
    assert(0 <= t * m) by (nonlinear_arith)
        requires
            0 <= t,
            0 <= m,
    ;
}

impl Battle {
    /// The living slots of a party as player indices.
    fn side_targets(p: &Party, ally: bool) -> (r: Vec<PlayerIndex>)
        requires
            p.wf(),
        ensures
            r@ == if ally { allies_of(living(*p)) } else { baddies_of(living(*p)) },
    {
        let l = p.living_slots();
        let mut r: Vec<PlayerIndex> = Vec::new();
        let mut i: usize = 0;
        while i < l.len()
            invariant
                i <= l@.len(),
                r@ == (if ally { allies_of(l@) } else { baddies_of(l@) }).subrange(0, i as int),
            decreases l@.len() - i,
        {
            r.push(if ally { PlayerIndex::Ally(l[i]) } else { PlayerIndex::Baddy(l[i]) });
            i = i + 1;
            assert(r@ =~= (if ally { allies_of(l@) } else { baddies_of(l@) }).subrange(0, i as int));
        }
        assert(r@ =~= (if ally { allies_of(l@) } else { baddies_of(l@) }));
        r
    }

    /// The targets that an action of scope `scope` starts with, as a player character uses it.
    pub fn begin_targeting(&self, scope: Scope) -> (r: Result<Vec<PlayerIndex>, BattleError>)
        requires
            self.wf(),
        ensures
            match r {
                Ok(v) => initial_targets(scope, self.allies, self.baddies) == Some(v@),
                Err(e) => initial_targets(scope, self.allies, self.baddies) is None && e == BattleError::UnsupportedScope,
            },
    {
        match scope {
            Scope::Enemy | Scope::Ally => {
                let side = if scope == Scope::Enemy { &self.baddies } else { &self.allies };
                let l = side.living_slots();
                let mut r: Vec<PlayerIndex> = Vec::new();
                if l.len() > 0 {
                    r.push(if scope == Scope::Enemy { PlayerIndex::Baddy(l[0]) } else { PlayerIndex::Ally(l[0]) });
                }
                proof {
                    if l@.len() > 0 {
                        assert(r@ =~= seq![r@[0]]);
                    } else {
                        assert(r@ =~= Seq::<PlayerIndex>::empty());
                    }
                }
                Ok(r)
            },
            Scope::Enemies => Ok(Battle::side_targets(&self.baddies, false)),
            Scope::Allies => Ok(Battle::side_targets(&self.allies, true)),
            Scope::All => {
                let mut r = Battle::side_targets(&self.baddies, false);
                let mut a = Battle::side_targets(&self.allies, true);
                r.append(&mut a);
                Ok(r)
            },
            _ => Err(BattleError::UnsupportedScope),
        }
    }

    /// Moves a single target to the next or previous living member of its party, wrapping around.
    pub fn change_member_selection(p: &Party, i: usize, forward: bool) -> (r: usize)
        requires
            p.wf(),
        ensures
            r == cycled(living(*p), i, forward),
    {
        let l = p.living_slots();
        let n = l.len();
        if n == 0 {
            return i;
        }
        let mut k: usize = 0;
        while k < n
            invariant
                n == l@.len(),
                l@ == living(*p),
                k <= n,
                first_index(l@, i, 0) == first_index(l@, i, k as int),
            decreases n - k,
        {
            if l[k] == i {
                return if forward {
                    if k + 1 == n {
                        l[0]
                    } else {
                        l[k + 1]
                    }
                } else if k == 0 {
                    l[n - 1]
                } else {
                    l[k - 1]
                };
            }
            k = k + 1;
        }
        l[0]
    }

    /// The next or previous menu position, wrapping around.
    pub fn step_selection(i: usize, len: usize, forward: bool) -> (r: usize)
        requires
            len > 0,
        ensures
            r == stepped(i, len, forward),
    {
        if forward {
            if i >= len - 1 {
                0
            } else {
                i + 1
            }
        } else if i == 0 {
            len - 1
        } else {
            i - 1
        }
    }

    /// The action that the current player character's menu path leads to.
    pub fn get_selected_action(&self) -> (r: Option<&Action>)
        requires
            self.wf(),
        ensures
            match r {
                Some(a) => selected_action(*self) == Some(*a),
                None => selected_action(*self) is None,
            },
    {
        match self.get_current_pc() {
            Some(c) => c.get_action_selection(&self.selections, &self.action_enc),
            None => None,
        }
    }

    /// The effect queue entries for `actor` using `effects` on every target, target by target.
    fn queue_effects(&self, actor: PlayerIndex, targets: &Vec<PlayerIndex>, effects: &Vec<IndexedOrLiteral<Effect>>) -> (r: Result<Vec<TargetedEffect>, BattleError>)
        ensures
            match r {
                Ok(v) => effects_resolve(effects@, self.effect_enc) && queued_for(actor, targets@, effects@, self.effect_enc, v@),
                Err(e) => e is MissingEffect && !effects_resolve(effects@, self.effect_enc),
            },
    {
        let ne = effects.len();
        let mut j: usize = 0;
        while j < ne
            invariant
                ne == effects@.len(),
                j <= ne,
                forall|e: int| 0 <= e < j ==> (#[trigger] self.effect_enc.resolved(effects@[e])) is Some,
            decreases ne - j,
        {
            if self.effect_enc.resolve(&effects[j]).is_none() {
                let id = match &effects[j] {
                    IndexedOrLiteral::Index(id) => *id,
                    IndexedOrLiteral::Literal(e) => e.id,
                };
                return Err(BattleError::MissingEffect(id));
            }
            j = j + 1;
        }
        let mut out: Vec<TargetedEffect> = Vec::new();
        let mut t: usize = 0;
        while t < targets.len()
            invariant
                ne == effects@.len(),
                effects_resolve(effects@, self.effect_enc),
                t <= targets@.len(),
                out@.len() == t * ne,
                forall|t2: int, e: int| 0 <= t2 < t && 0 <= e < ne ==> {
                    &&& (#[trigger] out@[t2 * ne + e]).actor_pi == actor
                    &&& out@[t2 * ne + e].target_pi == targets@[t2]
                    &&& self.effect_enc.resolved(#[trigger] effects@[e]) matches Some(eff) && out@[t2 * ne + e].hits@ == eff.hits@
                },
            decreases targets@.len() - t,
        {
            let mut e: usize = 0;
            let ghost base = out@;
            while e < ne
                invariant
                    ne == effects@.len(),
                    effects_resolve(effects@, self.effect_enc),
                    t < targets@.len(),
                    e <= ne,
                    base.len() == t * ne,
                    out@.len() == t * ne + e,
                    out@.subrange(0, t * ne) == base,
                    forall|e2: int| 0 <= e2 < e ==> {
                        &&& (#[trigger] out@[t * ne + e2]).actor_pi == actor
                        &&& out@[t * ne + e2].target_pi == targets@[t as int]
                        &&& self.effect_enc.resolved(effects@[e2]) matches Some(eff) && out@[t * ne + e2].hits@ == eff.hits@
                    },
                decreases ne - e,
            {
                proof {
                    assert(self.effect_enc.resolved(effects@[e as int]) is Some);
                }
                let eff = match self.effect_enc.resolve(&effects[e]) {
                    Some(x) => x,
                    None => {
                        return Err(BattleError::MissingEffect(0));
                    },
                };
                out.push(TargetedEffect { actor_pi: actor, target_pi: targets[t], hits: copy_hits(&eff.hits) });
                e = e + 1;
                proof {
                    assert(out@.subrange(0, t * ne) =~= base);
                }
            }
            proof {
                assert forall|t2: int, e2: int| 0 <= t2 < t + 1 && 0 <= e2 < ne implies {
                    &&& (#[trigger] out@[t2 * ne + e2]).actor_pi == actor
                    &&& out@[t2 * ne + e2].target_pi == targets@[t2]
                    &&& self.effect_enc.resolved(#[trigger] effects@[e2]) matches Some(eff) && out@[t2 * ne + e2].hits@ == eff.hits@
                } by {
                    lemma_index_bound(t2, e2, t as int + 1, ne as int);
                    if t2 < t {
                        lemma_index_bound(t2, e2, t as int, ne as int);
                        assert(out@[t2 * ne + e2] == base[t2 * ne + e2]);
                    }
                }
                assert((t + 1) * ne == t * ne + ne) by (nonlinear_arith);
            }
            t = t + 1;
        }
        Ok(out)
    }
}

/// The message that tells an action could not be paid for.
pub open spec fn cant_afford_message() -> Seq<char> {
    "Can't afford that action"@
}

/// The menu whose options the current player character is choosing among: the last one along
/// the menu path without its last index.
pub open spec fn top_menu(b: Battle) -> Option<crate::action::ActionMenu> {
    match b.current_pc_idx {
        Some(pi) => match b.member(pi) {
            Some(c) => if b.selections@.len() > 0 {
                match menus_along(c.actions, b.selections@.drop_last()) {
                    Some(ms) => Some(ms.last()),
                    None => None,
                }
            } else {
                None
            },
            None => None,
        },
        None => None,
    }
}

/// Every menu along the current player character's menu path, but for its last index, exists
/// and names only actions that can be found.
pub open spec fn path_menus_resolve(b: Battle) -> bool {
    match b.current_pc_idx {
        Some(pi) => match b.member(pi) {
            Some(c) => b.selections@.len() > 0 && match menus_along(c.actions, b.selections@.drop_last()) {
                Some(ms) => forall|k: int| 0 <= k < ms.len() ==> prompts_resolve(#[trigger] ms[k], b.action_enc),
                None => false,
            },
            None => false,
        },
        None => false,
    }
}

/// The current player character's menu path, but for its last index, goes through menus.
pub open spec fn path_menus_exist(b: Battle) -> bool {
    match b.current_pc_idx {
        Some(pi) => match b.member(pi) {
            Some(c) => b.selections@.len() > 0 && menus_along(c.actions, b.selections@.drop_last()) is Some,
            None => false,
        },
        None => false,
    }
}

/// Where a non-player character's action lands: one random living opponent or ally for a
/// single target, every living opponent or ally for a side. Its opponents are the allies.
pub open spec fn npc_targets(scope: Scope, allies: Party, baddies: Party, ts: Seq<PlayerIndex>) -> bool {
    match scope {
        Scope::Enemy => if living(allies).len() > 0 {
            ts.len() == 1 && exists|k: int| 0 <= k < living(allies).len() && ts[0] == PlayerIndex::Ally(#[trigger] living(allies)[k])
        } else {
            ts.len() == 0
        },
        Scope::Ally => if living(baddies).len() > 0 {
            ts.len() == 1 && exists|k: int| 0 <= k < living(baddies).len() && ts[0] == PlayerIndex::Baddy(#[trigger] living(baddies)[k])
        } else {
            ts.len() == 0
        },
        Scope::Enemies => ts == allies_of(living(allies)),
        Scope::Allies => ts == baddies_of(living(baddies)),
        _ => false,
    }
}

pub open spec fn npc_scope_supported(scope: Scope) -> bool {
    scope == Scope::Enemy || scope == Scope::Ally || scope == Scope::Enemies || scope == Scope::Allies
}

impl Battle {
    /// Goes one step further along the current player character's menus: into the selected
    /// menu, or, where the selection is an action, into targeting when the action can be paid
    /// for and into a "can't afford" message when it cannot. Nothing is paid here.
    pub fn next_menu(&mut self) -> (r: Result<(), BattleError>)
        requires
            old(self).wf(),
        ensures
            final(self).wf(),
            final(self).allies == old(self).allies,
            final(self).baddies == old(self).baddies,
            final(self).effects == old(self).effects,
            final(self).hits == old(self).hits,
            final(self).current_pc_idx == old(self).current_pc_idx,
            final(self).current_npc_idx == old(self).current_npc_idx,
            final(self).ended == old(self).ended,
            final(self).action_enc == old(self).action_enc,
            match selected_action(*old(self)) {
                None => match old(self).current_pc_idx {
                    Some(pi) => match old(self).member(pi) {
                        Some(c) => match option_along(c.actions, old(self).selections@) {
                            Some(CharacterAction::Menu(_)) => r is Ok && final(self).selections@ == old(self).selections@.push(0)
                                && final(self).text == old(self).text && final(self).targets == old(self).targets,
                            Some(CharacterAction::Index(id)) => if old(self).action_enc.records().contains_key(id) {
                                r is Ok && *final(self) == *old(self)
                            } else {
                                r == Err::<(), BattleError>(BattleError::MissingAction(id)) && *final(self) == *old(self)
                            },
                            _ => r is Ok && *final(self) == *old(self),
                        },
                        None => r is Ok && *final(self) == *old(self),
                    },
                    None => r is Ok && *final(self) == *old(self),
                },
                Some(a) => {
                    let c = old(self).member(old(self).current_pc_idx->Some_0)->Some_0;
                    &&& final(self).selections == old(self).selections
                    &&& if !pools_present(c.pools.entries@, a.costs.entries@) {
                        r == Err::<(), BattleError>(BattleError::MissingPool) && *final(self) == *old(self)
                    } else if pay(c.pools.entries@, a.costs.entries@) is None {
                        &&& r is Ok
                        &&& final(self).text@.len() == old(self).text@.len() + 1
                        &&& final(self).text@.drop_last() == old(self).text@
                        &&& final(self).text@.last()@ == cant_afford_message()
                        &&& final(self).targets == old(self).targets
                    } else {
                        match initial_targets(a.scope, old(self).allies, old(self).baddies) {
                            Some(ts) => r is Ok && final(self).targets@ == ts && final(self).text == old(self).text,
                            None => r == Err::<(), BattleError>(BattleError::UnsupportedScope) && *final(self) == *old(self),
                        }
                    }
                },
            },
    {
        let outcome: Option<Result<Vec<PlayerIndex>, BattleError>> = match self.get_selected_action() {
            Some(a) => {
                let actor = match self.get_current_pc() {
                    Some(c) => c,
                    None => {
                        return Ok(());
                    },
                };
                if !actor.has_pools_for(&a.costs) {
                    return Err(BattleError::MissingPool);
                }
                if actor.can_afford_action_costs(a) {
                    Some(self.begin_targeting(a.scope))
                } else {
                    None
                }
            },
            None => {
                let descend = match self.get_current_pc() {
                    Some(c) => match c.actions.option_at(&self.selections) {
                        Some(CharacterAction::Menu(_)) => true,
                        Some(CharacterAction::Index(id)) => {
                            if self.action_enc.get(id).is_none() {
                                return Err(BattleError::MissingAction(*id));
                            }
                            false
                        },
                        _ => false,
                    },
                    None => false,
                };
                if descend {
                    self.selections.push(0);
                }
                return Ok(());
            },
        };
        match outcome {
            Some(Ok(ts)) => {
                self.targets = ts;
                Ok(())
            },
            Some(Err(e)) => Err(e),
            None => {
                self.text.push_back(String::from_str("Can't afford that action"));
                Ok(())
            },
        }
    }

    /// Confirms the current player character's action on the chosen targets: pays its costs,
    /// queues its message and one effect per target and effect, and ends the turn.
    pub fn play_pc_action(&mut self) -> (r: Result<(), BattleError>)
        requires
            old(self).wf(),
        ensures
            final(self).wf(),
            final(self).ended == old(self).ended,
            final(self).hits == old(self).hits,
            final(self).current_npc_idx == old(self).current_npc_idx,
            r is Err ==> *final(self) == *old(self),
            old(self).current_pc_idx is None ==> r is Ok && *final(self) == *old(self),
            old(self).current_pc_idx is Some && r is Ok ==> {
                &&& final(self).current_pc_idx is None
                &&& final(self).selections@.len() == 0
                &&& final(self).targets@.len() == 0
            },
            match old(self).current_pc_idx {
                None => true,
                Some(pi) => r is Ok && selected_action(*old(self)) is Some
                && pay(old(self).member(pi)->Some_0.pools.entries@, selected_action(*old(self))->Some_0.costs.entries@) is Some ==> ({
                let a = selected_action(*old(self))->Some_0;
                let c = old(self).member(pi)->Some_0;
                &&& final(self).effects@.len() >= old(self).effects@.len()
                &&& final(self).effects@.subrange(0, old(self).effects@.len() as int) == old(self).effects@
                &&& queued_for(pi, old(self).targets@, a.effects@, old(self).effect_enc,
                    final(self).effects@.subrange(old(self).effects@.len() as int, final(self).effects@.len() as int))
                &&& names_of(*old(self), old(self).targets@) matches Some(names)
                &&& final(self).text@.len() == old(self).text@.len() + 1
                &&& final(self).text@.drop_last() == old(self).text@
                &&& final(self).text@.last()@ == message_text(a.message@, c.name@, names)
                &&& final(self).member(pi) matches Some(c2) && Some(c2.pools.entries@) == pay(c.pools.entries@, a.costs.entries@)
                    && c2 == (Character { pools: c2.pools, ..c })
                &&& only_member_changed(*old(self), *final(self), pi)
            }),
            },
            match old(self).current_pc_idx {
                None => true,
                Some(pi) => match selected_action(*old(self)) {
                    None => r is Ok,
                    Some(a) => {
                        let c = old(self).member(pi)->Some_0;
                        let resolves = effects_resolve(a.effects@, old(self).effect_enc);
                        let named = names_of(*old(self), old(self).targets@) is Some;
                        let present = pools_present(c.pools.entries@, a.costs.entries@);
                        let payable = pay(c.pools.entries@, a.costs.entries@) is Some;
                        &&& (r is Err && r->Err_0 is MissingEffect) <==> !resolves
                        &&& r == Err::<(), BattleError>(BattleError::MissingCharacter) <==> resolves && !named
                        &&& r == Err::<(), BattleError>(BattleError::MissingPool) <==> resolves && named && !present
                        &&& r == Err::<(), BattleError>(BattleError::Unaffordable) <==> resolves && named && present && !payable
                        &&& r is Ok <==> resolves && named && present && payable
                    },
                },
            },
    {
        let pi = match self.current_pc_idx {
            Some(pi) => pi,
            None => {
                return Ok(());
            },
        };
        let (queued, msg, costs) = match self.get_selected_action() {
            Some(a) => {
                let queued = match self.queue_effects(pi, &self.targets, &a.effects) {
                    Ok(q) => q,
                    Err(e) => {
                        return Err(e);
                    },
                };
                let names = match self.get_target_names_of(&self.targets) {
                    Some(n) => n,
                    None => {
                        return Err(BattleError::MissingCharacter);
                    },
                };
                let actor = match self.get_ch_by_pi(&pi) {
                    Some(c) => c,
                    None => {
                        return Err(BattleError::MissingCharacter);
                    },
                };
                if !actor.has_pools_for(&a.costs) {
                    return Err(BattleError::MissingPool);
                }
                if !actor.can_afford_action_costs(a) {
                    return Err(BattleError::Unaffordable);
                }
                let msg = a.get_message(actor.name.as_str(), &names);
                proof {
                    assert(names@.map_values(|n: String| n@) =~= views(names@));
                }
                (queued, msg, copy_costs(&a.costs))
            },
            None => {
                self.selections = Vec::new();
                self.current_pc_idx = None;
                self.targets = Vec::new();
                return Ok(());
            },
        };
        let ghost before = *self;
        match pi {
            PlayerIndex::Ally(i) => match self.allies.get_mut_ch_by_pos(i) {
                Some(c) => c.spend_costs(costs),
                None => {
                    return Err(BattleError::MissingCharacter);
                },
            },
            PlayerIndex::Baddy(i) => match self.baddies.get_mut_ch_by_pos(i) {
                Some(c) => c.spend_costs(costs),
                None => {
                    return Err(BattleError::MissingCharacter);
                },
            },
        }
        proof {
            let p0 = before.party_of(pi);
            let p1 = self.party_of(pi);
            assert forall|t: int| 0 <= t < p0.size() && t != slot_of(pi) implies #[trigger] p1.at(t) == p0.at(t) by {
                assert(p0.formation@[t] != p0.formation@[slot_of(pi)]);
            }
        }
        let ghost qv = queued@;
        let ghost e0 = self.effects@;
        self.append_effects(queued);
        proof {
            assert(self.effects@.subrange(e0.len() as int, self.effects@.len() as int) =~= qv);
            assert(self.effects@.subrange(0, e0.len() as int) =~= e0);
        }
        self.text.push_back(msg);
        self.selections = Vec::new();
        self.current_pc_idx = None;
        self.targets = Vec::new();
        Ok(())
    }

    /// Queues `queued` after the effects already waiting.
    fn append_effects(&mut self, queued: Vec<TargetedEffect>)
        ensures
            final(self).effects@ == old(self).effects@ + queued@,
            final(self).allies == old(self).allies,
            final(self).baddies == old(self).baddies,
            final(self).text == old(self).text,
            final(self).hits == old(self).hits,
            final(self).same_state(old(self)),
    {
        let mut queued = queued;
        let ghost q0 = queued@;
        let ghost mut k: int = 0;
        while queued.len() > 0
            invariant
                0 <= k <= q0.len(),
                queued@ == q0.subrange(k, q0.len() as int),
                self.effects@ == old(self).effects@ + q0.subrange(0, k),
                self.allies == old(self).allies,
                self.baddies == old(self).baddies,
                self.text == old(self).text,
                self.hits == old(self).hits,
                self.same_state(old(self)),
            decreases queued@.len(),
        {
            let te = queued.remove(0);
            self.effects.push_back(te);
            proof {
                k = k + 1;
                assert(queued@ =~= q0.subrange(k, q0.len() as int));
                assert(self.effects@ =~= old(self).effects@ + q0.subrange(0, k));
            }
        }
        proof {
            assert(q0.subrange(0, k) =~= q0);
        }
    }
}

/// `new` is `old` after the non-player character `pi` used action `a`, one its menu reaches, on
/// targets `ts` drawn for its scope: one effect queued per target and effect, and its message.
pub open spec fn npc_played(old: Battle, new: Battle, pi: PlayerIndex, a: Action, ts: Seq<PlayerIndex>) -> bool {
    let c = old.member(pi)->Some_0;
    &&& reachable(c.actions, a, old.action_enc)
    &&& npc_targets(a.scope, old.allies, old.baddies, ts)
    &&& queued_for(pi, ts, a.effects@, old.effect_enc, new.effects@.subrange(old.effects@.len() as int, new.effects@.len() as int))
    &&& names_of(old, ts) matches Some(names)
    &&& new.text@.len() == old.text@.len() + 1
    &&& new.text@.last()@ == message_text(a.message@, c.name@, names)
}

/// What a non-player character's turn may come to: an action used as `npc_played` says, or a
/// walk of its menu that stopped at a dead end, with nothing queued.
pub open spec fn npc_outcome(old: Battle, new: Battle, pi: PlayerIndex) -> bool {
    ||| exists|a: Action, ts: Seq<PlayerIndex>| #[trigger] npc_played(old, new, pi, a, ts)
    ||| (exists|path: Seq<usize>| dead_end(old.member(pi)->Some_0.actions, path, old.action_enc)) && new.effects == old.effects
        && new.text == old.text
}

/// Why a non-player character's turn can fail: its menu reaches an action whose scope it cannot
/// aim, or one with an effect that is not in the table.
pub open spec fn npc_failure(old: Battle, c: Character, e: BattleError) -> bool {
    match e {
        BattleError::UnsupportedScope => exists|a: Action| #[trigger] reachable(c.actions, a, old.action_enc) && !npc_scope_supported(a.scope),
        BattleError::MissingEffect(_) => exists|a: Action| #[trigger] reachable(c.actions, a, old.action_enc) && !effects_resolve(a.effects@, old.effect_enc),
        _ => false,
    }
}

/// The character's menu has no dead end, and every action it reaches has a scope it can aim and
/// effects that can be found: its turn cannot fail.
pub open spec fn npc_can_act(old: Battle, c: Character) -> bool {
    &&& forall|path: Seq<usize>| !dead_end(c.actions, path, old.action_enc)
    &&& forall|a: Action| #[trigger] reachable(c.actions, a, old.action_enc) ==> npc_scope_supported(a.scope) && effects_resolve(a.effects@, old.effect_enc)
}

/// Between `old` and `new` only the member that `pi` names may have changed: the other side is
/// the same, and so is every other member of its side.
pub open spec fn only_member_changed(old: Battle, new: Battle, pi: PlayerIndex) -> bool {
    let p0 = old.party_of(pi);
    let p1 = new.party_of(pi);
    &&& match pi {
        PlayerIndex::Ally(_) => new.baddies == old.baddies,
        PlayerIndex::Baddy(_) => new.allies == old.allies,
    }
    &&& p1.formation == p0.formation
    &&& p1.clocks == p0.clocks
    &&& p1.size() == p0.size()
    &&& forall|t: int| 0 <= t < p0.size() && t != slot_of(pi) ==> #[trigger] p1.at(t) == p0.at(t)
}

/// The current player character's selected action can be confirmed on the chosen targets: its
/// effects can be found, every target names somebody, and its costs name pools that it can pay.
pub open spec fn confirmable(b: Battle) -> bool {
    b.current_pc_idx matches Some(pi) && selected_action(b) matches Some(a) && {
        let c = b.member(pi)->Some_0;
        &&& effects_resolve(a.effects@, b.effect_enc)
        &&& names_of(b, b.targets@) is Some
        &&& pools_present(c.pools.entries@, a.costs.entries@)
        &&& pay(c.pools.entries@, a.costs.entries@) is Some
    }
}

/// Member `w` of `p` is up and its clock moves on every tick.
pub open spec fn can_be_ready(p: Party, w: int, sb: StatBlockEncyclopedia) -> bool {
    &&& 0 <= w < p.size()
    &&& !p.down_at(w)
    &&& clock_gain(p.at(w), 1, sb) is Some
    &&& clock_gain(p.at(w), 1, sb)->Some_0 >= 1
}

/// Both sides are sound and somebody's clock moves: waiting for a turn ends with one.
pub open spec fn turn_can_come(b: Battle) -> bool {
    &&& party_sound(b.allies, 1, b.statblocks, b.condition_enc)
    &&& party_sound(b.baddies, 1, b.statblocks, b.condition_enc)
    &&& (exists|w: int| can_be_ready(b.allies, w, b.statblocks)) || (exists|w: int| can_be_ready(b.baddies, w, b.statblocks))
}

pub open spec fn same_standing_at(p0: Party, p1: Party, w: int) -> bool {
    crate::party::same_standing(p0.at(w), p1.at(w))
}

/// A party whose members stand where those of a sound party stood is sound.
pub proof fn lemma_sound_members(p0: Party, p1: Party, sb: StatBlockEncyclopedia, cenc: ConditionEncyclopedia)
    requires
        same_members(p0, p1),
        party_sound(p0, 1, sb, cenc),
    ensures
        party_sound(p1, 1, sb, cenc),
{
    assert forall|s: int| 0 <= s < p1.size() implies clock_gain(#[trigger] p1.at(s), 1, sb) is Some && conditions_known(p1.at(s), cenc) by {
        assert(crate::party::same_standing(p0.at(s), p1.at(s)));
        lemma_same_standing(p0.at(s), p1.at(s), 1, sb, cenc);
    }
}

/// The most clock ticks a turn can wait for: every living character with a positive speed
/// reaches the ceiling within this many ticks.
pub const TURN_TICK_LIMIT: u32 = 65536;

impl Battle {
    /// Where a non-player character's action of scope `scope` lands.
    pub fn get_random_targets(&self, scope: Scope) -> (r: Vec<PlayerIndex>)
        requires
            self.wf(),
            npc_scope_supported(scope),
        ensures
            npc_targets(scope, self.allies, self.baddies, r@),
    {
        match scope {
            Scope::Enemy | Scope::Ally => {
                let side = if scope == Scope::Enemy { &self.allies } else { &self.baddies };
                let l = side.living_slots();
                let mut r: Vec<PlayerIndex> = Vec::new();
                if l.len() > 0 {
                    let k = random_below(l.len());
                    r.push(if scope == Scope::Enemy { PlayerIndex::Ally(l[k]) } else { PlayerIndex::Baddy(l[k]) });
                    proof {
                        assert(r@[0] == if scope == Scope::Enemy { PlayerIndex::Ally(l@[k as int]) } else { PlayerIndex::Baddy(l@[k as int]) });
                    }
                }
                r
            },
            Scope::Enemies => Battle::side_targets(&self.allies, true),
            _ => Battle::side_targets(&self.baddies, false),
        }
    }

    /// Plays the current non-player character's turn: a random action from its menu on random
    /// targets, queued with its message. Its costs are not paid.
    pub fn play_npc_action(&mut self) -> (r: Result<(), BattleError>)
        requires
            old(self).wf(),
        ensures
            final(self).wf(),
            final(self).allies == old(self).allies,
            final(self).baddies == old(self).baddies,
            final(self).hits == old(self).hits,
            final(self).ended == old(self).ended,
            final(self).current_pc_idx == old(self).current_pc_idx,
            final(self).selections == old(self).selections,
            final(self).targets == old(self).targets,
            final(self).action_enc == old(self).action_enc,
            final(self).effect_enc == old(self).effect_enc,
            final(self).statblocks == old(self).statblocks,
            final(self).condition_enc == old(self).condition_enc,
            final(self).effects@.len() >= old(self).effects@.len(),
            final(self).effects@.subrange(0, old(self).effects@.len() as int) == old(self).effects@,
            final(self).text@.len() >= old(self).text@.len(),
            final(self).text@.len() <= old(self).text@.len() + 1,
            final(self).text@.subrange(0, old(self).text@.len() as int) == old(self).text@,
            match old(self).current_npc_idx {
                None => r is Ok && *final(self) == *old(self),
                Some(pi) => match old(self).member(pi) {
                    None => r == Err::<(), BattleError>(BattleError::MissingCharacter) && *final(self) == *old(self),
                    Some(c) => {
                        &&& r is Ok ==> final(self).current_npc_idx is None && npc_outcome(*old(self), *final(self), pi)
                        &&& r is Err ==> *final(self) == *old(self) && npc_failure(*old(self), c, r->Err_0)
                        &&& npc_can_act(*old(self), c) ==> r is Ok
                    },
                },
            },
    {
        let pi = match self.current_npc_idx {
            Some(pi) => pi,
            None => {
                return Ok(());
            },
        };
        let na = self.allies.formation.len();
        let nb = self.baddies.formation.len();
        let ghost mut chosen: Option<(Action, Seq<PlayerIndex>, Seq<Seq<char>>)> = None;
        let picked = match self.get_ch_by_pi(&pi) {
            Some(actor) => match actor.get_random_action(&self.action_enc) {
                Some(a) => {
                    let supported = match a.scope {
                        Scope::Enemy | Scope::Ally | Scope::Enemies | Scope::Allies => true,
                        _ => false,
                    };
                    if !supported {
                        return Err(BattleError::UnsupportedScope);
                    }
                    let targets = self.get_random_targets(a.scope);
                    let queued = match self.queue_effects(pi, &targets, &a.effects) {
                        Ok(q) => q,
                        Err(e) => {
                            return Err(e);
                        },
                    };
                    proof {
                        lemma_living_from(self.allies, 0);
                        lemma_living_from(self.baddies, 0);
                        let ts = targets@;
                        assert forall|j: int| 0 <= j < ts.len() implies (#[trigger] self.member(ts[j])) is Some by {
                            if a.scope == Scope::Enemies {
                                assert(ts[j] == allies_of(living(self.allies))[j]);
                            } else if a.scope == Scope::Allies {
                                assert(ts[j] == baddies_of(living(self.baddies))[j]);
                            } else if a.scope == Scope::Enemy {
                                let k = choose|k: int| 0 <= k < living(self.allies).len() && ts[0] == PlayerIndex::Ally(#[trigger] living(self.allies)[k]);
                                assert(j == 0);
                            } else {
                                let k = choose|k: int| 0 <= k < living(self.baddies).len() && ts[0] == PlayerIndex::Baddy(#[trigger] living(self.baddies)[k]);
                                assert(j == 0);
                            }
                        }
                    }
                    let names = match self.get_target_names_of(&targets) {
                        Some(n) => n,
                        None => {
                            assert(false);
                            return Err(BattleError::MissingCharacter);
                        },
                    };
                    let msg = a.get_message(actor.name.as_str(), &names);
                    proof {
                        assert(names@.map_values(|n: String| n@) =~= views(names@));
                        chosen = Some((*a, targets@, views(names@)));
                    }
                    Some((queued, msg))
                },
                None => None,
            },
            None => {
                return Err(BattleError::MissingCharacter);
            },
        };
        let ghost t0 = self.text@;
        let ghost e0 = self.effects@;
        if let Some((queued, msg)) = picked {
            let ghost qv = queued@;
            self.append_effects(queued);
            self.text.push_back(msg);
            proof {
                assert(self.effects@.subrange(e0.len() as int, self.effects@.len() as int) =~= qv);
            }
        }
        proof {
            assert(self.text@.subrange(0, t0.len() as int) =~= t0);
            assert(self.effects@.subrange(0, e0.len() as int) =~= e0);
        }
        self.current_npc_idx = None;
        proof {
            if let Some((ga, gts, gnames)) = chosen {
                assert(npc_played(*old(self), *self, pi, ga, gts));
            }
        }
        Ok(())
    }

    /// Advances the clocks one tick at a time until someone is ready: a player character's turn
    /// starts its menu, a non-player character plays at once. Allies are checked before baddies,
    /// each in formation order; nobody down is ever picked. Gives up, with no turn begun, when no
    /// one can become ready.
    pub fn next_turn(&mut self) -> (r: Result<Option<PlayerIndex>, BattleError>)
        requires
            old(self).wf(),
        ensures
            final(self).wf(),
            final(self).ended == old(self).ended,
            final(self).hits == old(self).hits,
            final(self).targets == old(self).targets,
            r is Ok ==> final(self).current_npc_idx is None,
            final(self).text@.len() >= old(self).text@.len(),
            final(self).text@.subrange(0, old(self).text@.len() as int) == old(self).text@,
            r is Ok ==> match final(self).current_pc_idx {
                Some(pi) => old(self).current_pc_idx is None ==> (pi matches PlayerIndex::Ally(i) && i < final(self).allies.size()
                    && !final(self).allies.down_at(i as int) && final(self).selections@ == old(self).selections@.push(0)),
                None => true,
            },
            old(self).current_pc_idx is None && turn_can_come(*old(self)) ==> final(self).current_pc_idx is Some
                || final(self).text@.len() > old(self).text@.len(),
            r is Ok && r->Ok_0 is Some ==> names_living(r->Ok_0->Some_0, old(self).allies, old(self).baddies),
            r matches Ok(Some(PlayerIndex::Ally(i))) ==> final(self).current_pc_idx == Some(PlayerIndex::Ally(i)),
            old(self).current_pc_idx is None && turn_can_come(*old(self)) ==> r is Err || r is Ok && r->Ok_0 is Some,
            r is Ok ==> same_members(old(self).allies, final(self).allies),
            r is Ok ==> same_members(old(self).baddies, final(self).baddies),
            final(self).effects@.len() >= old(self).effects@.len(),
            final(self).effects@.subrange(0, old(self).effects@.len() as int) == old(self).effects@,
    {
        let ghost prem = old(self).current_pc_idx is None && turn_can_come(*old(self));
        let ghost p0a = self.allies;
        let ghost p0b = self.baddies;
        let ghost w_ally: bool = exists|w: int| can_be_ready(p0a, w, self.statblocks);
        let ghost w: int = if w_ally {
            choose|w: int| can_be_ready(p0a, w, self.statblocks)
        } else {
            choose|w: int| can_be_ready(p0b, w, self.statblocks)
        };
        self.current_npc_idx = None;
        let mut ticks: u32 = 0;
        while ticks < TURN_TICK_LIMIT
            invariant
                self.wf(),
                self.ended == old(self).ended,
                self.hits == old(self).hits,
                self.targets == old(self).targets,
                self.current_pc_idx == old(self).current_pc_idx,
                self.current_npc_idx is None,
                self.selections == old(self).selections,
                self.text == old(self).text,
                self.effects == old(self).effects,
                self.statblocks == old(self).statblocks,
                self.condition_enc == old(self).condition_enc,
                p0a == old(self).allies,
                p0b == old(self).baddies,
                same_members(p0a, self.allies),
                same_members(p0b, self.baddies),
                prem == (old(self).current_pc_idx is None && turn_can_come(*old(self))),
                prem ==> if w_ally {
                    can_be_ready(p0a, w, old(self).statblocks) && self.allies.clocks@[w] >= ticks
                } else {
                    can_be_ready(p0b, w, old(self).statblocks) && self.baddies.clocks@[w] >= ticks
                },
            decreases TURN_TICK_LIMIT - ticks,
        {
            proof {
                if prem {
                    if w_ally {
                        assert(same_standing_at(p0a, self.allies, w));
                        lemma_same_standing(p0a.at(w), self.allies.at(w), 1, self.statblocks, self.condition_enc);
                    } else {
                        assert(same_standing_at(p0b, self.baddies, w));
                        lemma_same_standing(p0b.at(w), self.baddies.at(w), 1, self.statblocks, self.condition_enc);
                    }
                }
            }
            let ghost pa = self.allies;
            let ghost pb = self.baddies;
            if let Some(i) = self.allies.get_ready_ch_pos() {
                if self.current_pc_idx.is_some() {
                    return Ok(None);
                }
                self.current_pc_idx = Some(PlayerIndex::Ally(i));
                self.current_npc_idx = None;
                self.selections.push(0);
                let mut msg = String::from_str("It's ");
                match self.allies.get_ch_by_pos(i) {
                    Some(c) => msg.append(c.name.as_str()),
                    None => {},
                }
                msg.append("'s turn!");
                self.text.push_back(msg);
                proof {
                    assert(self.text@.subrange(0, old(self).text@.len() as int) =~= old(self).text@);
                    assert(crate::party::same_standing(p0a.at(i as int), pa.at(i as int)));
                    lemma_same_standing(p0a.at(i as int), pa.at(i as int), 1, self.statblocks, self.condition_enc);
                }
                return Ok(Some(PlayerIndex::Ally(i)));
            }
            if let Some(i) = self.baddies.get_ready_ch_pos() {
                self.current_npc_idx = Some(PlayerIndex::Baddy(i));
                let mut msg = String::from_str("It's ");
                match self.baddies.get_ch_by_pos(i) {
                    Some(c) => msg.append(c.name.as_str()),
                    None => {},
                }
                msg.append("'s turn!");
                self.text.push_back(msg);
                let ghost t1 = self.text@;
                let res = self.play_npc_action();
                proof {
                    assert(t1.subrange(0, old(self).text@.len() as int) =~= old(self).text@);
                    assert(self.text@.subrange(0, old(self).text@.len() as int) =~= t1.subrange(0, old(self).text@.len() as int));
                }
                self.current_npc_idx = None;
                proof {
                    assert(crate::party::same_standing(p0b.at(i as int), pb.at(i as int)));
                    lemma_same_standing(p0b.at(i as int), pb.at(i as int), 1, self.statblocks, self.condition_enc);
                }
                return match res {
                    Ok(()) => Ok(Some(PlayerIndex::Baddy(i))),
                    Err(e) => Err(e),
                };
            }
            proof {
                if prem {
                    lemma_sound_members(p0a, self.allies, self.statblocks, self.condition_enc);
                    lemma_sound_members(p0b, self.baddies, self.statblocks, self.condition_enc);
                }
            }
            let ghost a1 = self.allies;
            proof {
                if prem {
                    assert(party_sound(a1, 1, self.statblocks, self.condition_enc));
                }
            }
            match self.allies.increment_clocks(1, &self.condition_enc, &self.statblocks) {
                Ok(()) => {},
                Err(e) => {
                    assert(!party_sound(a1, 1, self.statblocks, self.condition_enc));
                    return Err(e);
                },
            }
            proof {
                lemma_advance_keeps_members(p0a, a1, self.allies, 1, self.condition_enc, self.statblocks);
            }
            let ghost a2 = self.allies;
            let ghost b1 = self.baddies;
            match self.baddies.increment_clocks(1, &self.condition_enc, &self.statblocks) {
                Ok(()) => {},
                Err(e) => {
                    return Err(e);
                },
            }
            proof {
                lemma_advance_keeps_members(p0b, b1, self.baddies, 1, self.condition_enc, self.statblocks);
                if prem {
                    if w_ally {
                        lemma_same_standing(p0a.at(w), pa.at(w), 1, self.statblocks, self.condition_enc);
                        assert(!pa.down_at(w));
                        assert(!(pa.clocks@[w] == CLOCK_CEILING && !pa.down_at(w)));
                        assert(a1.clocks@[w] < CLOCK_CEILING);
                        assert(a1.clocks@[w] == pa.clocks@[w]);
                        assert(crate::party::same_standing(p0a.at(w), a1.at(w)));
                        lemma_same_standing(p0a.at(w), a1.at(w), 1, self.statblocks, self.condition_enc);
                        assert(clock_gain(a1.at(w), 1, self.statblocks)->Some_0 >= 1);
                        assert(a2.clocks@[w] >= a1.clocks@[w] + 1);
                        assert(self.allies == a2);
                        assert(self.allies.clocks@[w] >= ticks + 1);
                    } else {
                        lemma_same_standing(p0b.at(w), pb.at(w), 1, self.statblocks, self.condition_enc);
                        assert(!pb.down_at(w));
                        assert(!(pb.clocks@[w] == CLOCK_CEILING && !pb.down_at(w)));
                        assert(b1.clocks@[w] < CLOCK_CEILING);
                        assert(b1.clocks@[w] == pb.clocks@[w]);
                        assert(crate::party::same_standing(p0b.at(w), b1.at(w)));
                        lemma_same_standing(p0b.at(w), b1.at(w), 1, self.statblocks, self.condition_enc);
                        assert(clock_gain(b1.at(w), 1, self.statblocks)->Some_0 >= 1);
                        assert(self.baddies.clocks@[w] >= b1.clocks@[w] + 1);
                        assert(self.baddies.clocks@[w] >= ticks + 1);
                    }
                }
            }
            ticks = ticks + 1;
        }
        Ok(None)
    }

    /// The prompts of every menu along the current player character's menu path but its last
    /// index: the menus it has opened, the root first.
    pub fn get_current_pc_actions(&self) -> (r: Option<Vec<Vec<Name>>>)
        requires
            self.wf(),
        ensures
            match self.current_pc_idx {
                Some(pi) => match self.member(pi) {
                    Some(c) => if self.selections@.len() > 0 {
                        options_along(c.actions, self.selections@.drop_last(), self.action_enc, r)
                    } else {
                        r is None
                    },
                    None => r is None,
                },
                None => r is None,
            },
    {
        if self.selections.len() == 0 {
            return None;
        }
        let mut parent: Vec<usize> = Vec::new();
        let mut k: usize = 0;
        while k < self.selections.len() - 1
            invariant
                self.selections@.len() > 0,
                k < self.selections@.len(),
                parent@ == self.selections@.subrange(0, k as int),
            decreases self.selections@.len() - k,
        {
            parent.push(self.selections[k]);
            k = k + 1;
            assert(parent@ =~= self.selections@.subrange(0, k as int));
        }
        assert(parent@ =~= self.selections@.drop_last());
        match self.get_current_pc() {
            Some(c) => c.get_action_options(&parent, &self.action_enc),
            None => None,
        }
    }

    /// The prompts of the menu the current player character is choosing in; none while a message
    /// is waiting.
    pub fn get_top_menu_options(&self) -> (r: Option<Vec<String>>)
        requires
            self.wf(),
        ensures
            self.text@.len() > 0 ==> r is None,
            r matches Some(v) ==> top_menu(*self) matches Some(m) && prompts_are(m, self.action_enc, v@),
            (self.text@.len() == 0 && path_menus_resolve(*self)) ==> r is Some,
            r is Some ==> path_menus_resolve(*self),
    {
        if self.text.len() > 0 {
            return None;
        }
        if self.current_pc_idx.is_none() {
            return None;
        }
        match self.get_current_pc_actions() {
            Some(mut menus) => {
                proof {
                    let c = self.member(self.current_pc_idx->Some_0)->Some_0;
                    crate::action::lemma_menus_along(c.actions, self.selections@.drop_last());
                }
                let n = menus.len();
                if n == 0 {
                    return None;
                }
                proof {
                    let c = self.member(self.current_pc_idx->Some_0)->Some_0;
                    let ms = menus_along(c.actions, self.selections@.drop_last())->Some_0;
                    assert forall|k: int| 0 <= k < ms.len() implies prompts_resolve(#[trigger] ms[k], self.action_enc) by {
                        assert(prompts_are(ms[k], self.action_enc, menus@[k]@));
                        assert forall|i: int| 0 <= i < ms[k].options@.len() implies (#[trigger] crate::action::prompt_of(ms[k].options@[i], self.action_enc)) is Some by {
                            assert(crate::action::prompt_of(ms[k].options@[i], self.action_enc) == Some(menus@[k]@[i]@));
                        }
                    }
                }
                let last = menus.remove(n - 1);
                Some(last)
            },
            None => None,
        }
    }

    /// The prompts along the current menu path, and the path itself.
    pub fn get_menu_selections(&self) -> (r: (Option<Vec<Vec<String>>>, Vec<usize>))
        requires
            self.wf(),
        ensures
            r.1@ == self.selections@,
    {
        let mut sel: Vec<usize> = Vec::new();
        let mut k: usize = 0;
        while k < self.selections.len()
            invariant
                k <= self.selections@.len(),
                sel@ == self.selections@.subrange(0, k as int),
            decreases self.selections@.len() - k,
        {
            sel.push(self.selections[k]);
            k = k + 1;
            assert(sel@ =~= self.selections@.subrange(0, k as int));
        }
        assert(sel@ =~= self.selections@);
        (self.get_current_pc_actions(), sel)
    }
}

/// The target after a Left (`forward` false) or Right move from a single target: the adjacent
/// living member of the same side.
pub open spec fn moved_target(b: Battle, t: PlayerIndex, forward: bool) -> PlayerIndex {
    match t {
        PlayerIndex::Ally(i) => PlayerIndex::Ally(cycled(living(b.allies), i, forward)),
        PlayerIndex::Baddy(i) => PlayerIndex::Baddy(cycled(living(b.baddies), i, forward)),
    }
}

/// Only the targets differ between `a` and `b`.
pub open spec fn only_targets_differ(a: Battle, b: Battle) -> bool {
    b == Battle { targets: b.targets, ..a }
}

/// Only the menu path differs between `a` and `b`.
pub open spec fn only_selections_differ(a: Battle, b: Battle) -> bool {
    b == Battle { selections: b.selections, ..a }
}

impl Battle {
    /// An action id that a menu along the current player character's menu path names and the
    /// table lacks; where the path's menus name only known actions, there is none.
    fn missing_action_along(&self) -> (r: Option<crate::common::Id>)
        requires
            self.wf(),
        ensures
            path_menus_exist(*self) && !path_menus_resolve(*self) ==> r is Some,
    {
        let c = match self.get_current_pc() {
            Some(c) => c,
            None => {
                return None;
            },
        };
        let n = self.selections.len();
        if n == 0 {
            return None;
        }
        let ghost path = self.selections@.drop_last();
        let mut menu = &c.actions;
        let mut k: usize = 0;
        let ghost mut acc: Seq<crate::action::ActionMenu> = Seq::empty();
        proof {
            assert(path.subrange(0, path.len() as int) =~= path);
            crate::action::lemma_menus_along(c.actions, path);
        }
        loop
            invariant
                self.current_pc_idx is Some,
                self.member(self.current_pc_idx->Some_0) == Some(*c),
                n == self.selections@.len(),
                n > 0,
                path == self.selections@.drop_last(),
                k < n,
                acc.len() == k,
                forall|j: int| 0 <= j < k ==> prompts_resolve(#[trigger] acc[j], self.action_enc),
                menus_along(c.actions, path) == match menus_along(*menu, path.subrange(k as int, path.len() as int)) {
                    Some(ms) => Some(acc + ms),
                    None => None::<Seq<crate::action::ActionMenu>>,
                },
            decreases n - k,
        {
            let mut i: usize = 0;
            while i < menu.options.len()
                invariant
                    i <= menu.options@.len(),
                    forall|j: int| 0 <= j < i ==> (#[trigger] crate::action::prompt_of(menu.options@[j], self.action_enc)) is Some,
                decreases menu.options@.len() - i,
            {
                if let CharacterAction::Index(id) = &menu.options[i] {
                    if self.action_enc.get(id).is_none() {
                        return Some(*id);
                    }
                }
                i = i + 1;
            }
            let ghost rest = path.subrange(k as int, path.len() as int);
            proof {
                assert(prompts_resolve(*menu, self.action_enc));
            }
            if k + 1 >= n {
                proof {
                    assert(rest.len() == 0);
                    assert(menus_along(*menu, rest) == Some(seq![*menu]));
                    let all = acc.push(*menu);
                    assert(acc + seq![*menu] =~= all);
                    assert forall|j: int| 0 <= j < all.len() implies prompts_resolve(#[trigger] all[j], self.action_enc) by {
                        if j < k {
                            assert(all[j] == acc[j]);
                        }
                    }
                }
                return None;
            }
            proof {
                assert(rest[0] == self.selections@[k as int]);
                assert(rest.drop_first() =~= path.subrange(k + 1, path.len() as int));
            }
            match menu.get_option(self.selections[k]) {
                Some(CharacterAction::Menu(m)) => {
                    proof {
                        match menus_along(*m, rest.drop_first()) {
                            Some(ms) => {
                                assert(acc + (seq![*menu] + ms) =~= acc.push(*menu) + ms);
                            },
                            None => {},
                        }
                        acc = acc.push(*menu);
                    }
                    menu = m;
                    k = k + 1;
                },
                _ => {
                    assert(menus_along(*menu, rest) is None);
                    return None;
                },
            }
        }
    }

    fn digit_of(c: char) -> (r: Option<usize>)
        ensures
            match r {
                Some(d) => '1' <= c <= '9' && d == c as int - '0' as int,
                None => !('1' <= c <= '9'),
            },
    {
        if '1' <= c && c <= '9' {
            Some((c as u32 - '0' as u32) as usize)
        } else {
            None
        }
    }

    /// Handles one key while no message is waiting. While targets are chosen: Enter confirms the
    /// action, Left and Right move a single target along its side, Escape goes back to the menus.
    /// In the menus: Enter or a digit picks an option, Up and Down move the selection with
    /// wrap-around, Escape goes back up one menu.
    pub fn make_selection(&mut self, key: Key) -> (r: Result<(), BattleError>)
        requires
            old(self).wf(),
        ensures
            final(self).wf(),
            final(self).ended == old(self).ended,
            final(self).hits == old(self).hits,
            r is Err ==> final(self).allies == old(self).allies && final(self).baddies == old(self).baddies,
            old(self).targets@.len() > 0 ==> match key {
                Key::Char(c) => if c == '\n' {
                    &&& (r is Ok && old(self).current_pc_idx is Some) ==> final(self).targets@.len() == 0
                        && final(self).current_pc_idx is None && final(self).selections@.len() == 0
                    &&& r is Err ==> *final(self) == *old(self)
                    &&& confirmable(*old(self)) ==> r is Ok && final(self).text@.len() == old(self).text@.len() + 1
                } else {
                    r is Ok && *final(self) == *old(self)
                },
                Key::Left | Key::Right => r is Ok && only_targets_differ(*old(self), *final(self)) && if old(self).targets@.len() == 1 {
                    final(self).targets@ == seq![moved_target(*old(self), old(self).targets@[0], key == Key::Right)]
                } else {
                    final(self).targets == old(self).targets
                },
                Key::Esc => r is Ok && only_targets_differ(*old(self), *final(self)) && final(self).targets@.len() == 0,
                _ => r is Ok && *final(self) == *old(self),
            },
            old(self).targets@.len() == 0 && old(self).text@.len() == 0 && path_menus_exist(*old(self))
                && !path_menus_resolve(*old(self)) ==> r matches Err(BattleError::MissingAction(_)),
            old(self).targets@.len() == 0 && old(self).text@.len() == 0 && path_menus_resolve(*old(self)) ==> ({
                let m = top_menu(*old(self))->Some_0;
                let n = old(self).selections@.len();
                match key {
                    Key::Up | Key::Down => r is Ok && only_selections_differ(*old(self), *final(self)) && if m.options@.len() > 0 {
                        final(self).selections@ == old(self).selections@.update(n - 1, stepped(old(self).selections@[n - 1], m.options@.len() as usize, key == Key::Down))
                    } else {
                        final(self).selections == old(self).selections
                    },
                    Key::Esc => r is Ok && only_selections_differ(*old(self), *final(self)) && if n > 1 {
                        final(self).selections@ == old(self).selections@.drop_last()
                    } else {
                        final(self).selections == old(self).selections
                    },
                    Key::Char(c) => if c != '\n' && !('1' <= c <= '9') {
                        r is Ok && *final(self) == *old(self)
                    } else if '1' <= c <= '9' && c as int - '0' as int > m.options@.len() {
                        r is Ok && *final(self) == *old(self)
                    } else {
                        true
                    },
                    _ => r is Ok && *final(self) == *old(self),
                }
            }),
    {
        if self.targets.len() > 0 {
            match key {
                Key::Char(c) => {
                    if c == '\n' {
                        return self.play_pc_action();
                    }
                },
                Key::Left | Key::Right => {
                    if self.targets.len() < 2 {
                        let forward = key == Key::Right;
                        let moved = match self.targets[0] {
                            PlayerIndex::Ally(i) => PlayerIndex::Ally(Battle::change_member_selection(&self.allies, i, forward)),
                            PlayerIndex::Baddy(i) => PlayerIndex::Baddy(Battle::change_member_selection(&self.baddies, i, forward)),
                        };
                        let mut t: Vec<PlayerIndex> = Vec::new();
                        t.push(moved);
                        self.targets = t;
                        proof {
                            assert(self.targets@ =~= seq![moved]);
                        }
                    }
                },
                Key::Esc => {
                    self.targets = Vec::new();
                },
                _ => {},
            }
            return Ok(());
        }
        let count = match self.get_top_menu_options() {
            Some(options) => options.len(),
            None => {
                if self.text.len() == 0 && self.current_pc_idx.is_some() && self.selections.len() > 0 {
                    match self.get_current_pc_actions() {
                        None => {
                            if let Some(id) = self.missing_action_along() {
                                return Err(BattleError::MissingAction(id));
                            }
                        },
                        Some(menus) => {
                            proof {
                                if path_menus_exist(*self) {
                                    let c = self.member(self.current_pc_idx->Some_0)->Some_0;
                                    let ms = menus_along(c.actions, self.selections@.drop_last())->Some_0;
                                    assert forall|k: int| 0 <= k < ms.len() implies prompts_resolve(#[trigger] ms[k], self.action_enc) by {
                                        assert(prompts_are(ms[k], self.action_enc, menus@[k]@));
                                        assert forall|i: int| 0 <= i < ms[k].options@.len() implies (#[trigger] crate::action::prompt_of(ms[k].options@[i], self.action_enc)) is Some by {
                                            assert(crate::action::prompt_of(ms[k].options@[i], self.action_enc) == Some(menus@[k]@[i]@));
                                        }
                                    }
                                    assert(path_menus_resolve(*self));
                                }
                            }
                        },
                    }
                }
                return Ok(());
            },
        };
        proof {
            if self.text@.len() == 0 && path_menus_resolve(*self) {
                let c = self.member(self.current_pc_idx->Some_0)->Some_0;
                crate::action::lemma_menus_along(c.actions, self.selections@.drop_last());
            }
        }
        match key {
            Key::Char(c) => {
                if c == '\n' {
                    return self.next_menu();
                }
                if let Some(d) = Battle::digit_of(c) {
                    if d - 1 < count && self.selections.len() > 0 {
                        let _ = self.selections.pop();
                        self.selections.push(d - 1);
                        return self.next_menu();
                    }
                }
            },
            Key::Up | Key::Down => {
                if count > 0 && self.selections.len() > 0 {
                    let n = self.selections.len();
                    let i = self.selections[n - 1];
                    let ni = Battle::step_selection(i, count, key == Key::Down);
                    self.selections.set(n - 1, ni);
                }
            },
            Key::Esc => {
                if self.selections.len() > 1 {
                    let _ = self.selections.pop();
                    proof {
                        assert(self.selections@ =~= old(self).selections@.drop_last());
                    }
                }
            },
            _ => {},
        }
        Ok(())
    }

    /// Handles one key press. While a message is waiting, any key dismisses it, resolves one
    /// queued effect and applies one queued hit, checks for the end of the battle and, once
    /// nothing is pending, starts the next turn; the result is then `false`. Otherwise the key
    /// goes to the menus or to targeting, and the result tells whether the battle has ended.
    pub fn handle_input(&mut self, key: Key) -> (r: Result<bool, BattleError>)
        requires
            old(self).wf(),
        ensures
            final(self).wf(),
            old(self).ended ==> final(self).ended,
            r == Ok::<bool, BattleError>(true) ==> final(self).ended,
            old(self).text@.len() > 0 ==> r is Err || r == Ok::<bool, BattleError>(false),
            old(self).text@.len() > 0 && r is Ok ==> final(self).targets == old(self).targets,
            old(self).text@.len() > 0 && r is Ok && old(self).effects@.len() > 0 ==> final(self).effects@.len() + 1
                >= old(self).effects@.len() && final(self).effects@.subrange(0, old(self).effects@.len() - 1)
                == old(self).effects@.drop_first(),
            old(self).text@.len() > 0 && r is Ok && old(self).hits@.len() > 0 ==> hit_landed(*old(self), *final(self), old(self).hits@[0]),
            old(self).text@.len() > 0 && r is Ok && old(self).hits@.len() == 0 && old(self).effects@.len() > 0
                && old(self).effects@[0].hits@.len() > 0 ==> first_effect_landed(*old(self), *final(self)),
            old(self).text@.len() > 0 && r is Ok ==> final(self).text@.len() >= old(self).text@.len() - 1
                && final(self).text@.subrange(0, old(self).text@.len() - 1) == old(self).text@.drop_first(),
            old(self).text@.len() == 0 && old(self).targets@.len() > 0 && key == Key::Esc ==> final(self).targets@.len() == 0
                && only_targets_differ(*old(self), *final(self)),
            old(self).text@.len() == 0 && old(self).targets@.len() == 0 && path_menus_resolve(*old(self)) && (key == Key::Up || key == Key::Down) ==> ({
                let m = top_menu(*old(self))->Some_0;
                let n = old(self).selections@.len();
                &&& only_selections_differ(*old(self), *final(self))
                &&& m.options@.len() > 0 ==> final(self).selections@ == old(self).selections@.update(n - 1, stepped(old(self).selections@[n - 1], m.options@.len() as usize, key == Key::Down))
            }),
    {
        if self.text.len() > 0 {
            let _ = self.pop_text();
            let ghost t0 = self.text@;
            let ghost b0 = *self;
            match self.handle_effect() {
                Ok(()) => {},
                Err(e) => {
                    return Err(e);
                },
            }
            let ghost b1 = *self;
            proof {
                if b0.effects@.len() > 0 {
                    assert(b1.hits@.subrange(0, b0.hits@.len() as int) == b0.hits@);
                    if b0.hits@.len() > 0 {
                        assert(b1.hits@[0] == b0.hits@[0]);
                    } else if b0.effects@[0].hits@.len() > 0 {
                        let rs = b1.hits@.subrange(0, b1.hits@.len() as int);
                        assert(rs =~= b1.hits@);
                    }
                }
            }
            match self.handle_hit() {
                Ok(()) => {},
                Err(e) => {
                    return Err(e);
                },
            }
            let ghost b2 = *self;
            let ghost t1 = self.text@;
            proof {
                assert(t1.subrange(0, t0.len() as int) =~= t0);
            }
            let ended = self.check_end_game();
            let ghost b3 = *self;
            let ghost t2 = self.text@;
            proof {
                assert(t2.subrange(0, t0.len() as int) =~= t0);
            }
            if !ended && self.text.len() == 0 && self.current_pc_idx.is_none() && self.current_npc_idx.is_none() {
                match self.next_turn() {
                    Ok(_) => {},
                    Err(e) => {
                        return Err(e);
                    },
                }
                proof {
                    assert(self.text@.subrange(0, t0.len() as int) =~= t2.subrange(0, t0.len() as int));
                    if old(self).hits@.len() > 0 {
                        let th = old(self).hits@[0];
                        lemma_pool_at_kept(b3, *self, th.target_pi, th.pool@);
                    }
                    if old(self).hits@.len() == 0 && old(self).effects@.len() > 0 && old(self).effects@[0].hits@.len() > 0 {
                        let th = b1.hits@[0];
                        lemma_pool_at_kept(b3, *self, th.target_pi, th.pool@);
                    }
                    if b3.effects@.len() > 0 {
                        assert(self.effects@.subrange(0, b3.effects@.len() as int) == b3.effects@);
                    }
                }
            }
            proof {
                if old(self).effects@.len() > 0 {
                    assert(b1.effects@ == old(self).effects@.drop_first());
                    assert(self.effects@.subrange(0, old(self).effects@.len() - 1) =~= old(self).effects@.drop_first());
                }
                if old(self).hits@.len() > 0 {
                    let th = old(self).hits@[0];
                    assert(b1.hits@[0] == th);
                    assert(b1.pool_at(th.target_pi, th.pool@) == old(self).pool_at(th.target_pi, th.pool@));
                    assert(hit_landed(*old(self), *self, th));
                }
                if old(self).hits@.len() == 0 && old(self).effects@.len() > 0 && old(self).effects@[0].hits@.len() > 0 {
                    let th = b1.hits@[0];
                    assert(b1.pool_at(th.target_pi, th.pool@) == old(self).pool_at(th.target_pi, th.pool@));
                    assert(first_effect_landed(*old(self), *self));
                }
            }
            return Ok(false);
        }
        match self.make_selection(key) {
            Ok(()) => {},
            Err(e) => {
                return Err(e);
            },
        }
        Ok(self.ended)
    }
}

/// Hit `th` has been applied between `old` and `new`: its pool now holds what the hit leaves.
pub open spec fn hit_landed(old: Battle, new: Battle, th: TargetedHit) -> bool {
    &&& old.pool_at(th.target_pi, th.pool@) matches Some(p)
    &&& new.pool_at(th.target_pi, th.pool@) == Some(
        Pool { current: hit_result(p.current as int, th.amount as int, p.maximum as int) as i32, ..p },
    )
}

/// The first hit of the first queued effect of `old` has been resolved and applied in `new`.
pub open spec fn first_effect_landed(old: Battle, new: Battle) -> bool {
    let te = old.effects@[0];
    &&& old.member(te.actor_pi) is Some
    &&& old.member(te.target_pi) is Some
    &&& hit_amount(te.hits@[0].amount, old.member(te.actor_pi)->Some_0, old.member(te.target_pi)->Some_0, old.statblocks) matches Ok(v)
    &&& hit_landed(old, new, TargetedHit { target_pi: te.target_pi, pool: te.hits@[0].pool, amount: v })
}

/// Members standing alike keep their pools.
pub proof fn lemma_pool_at_kept(b0: Battle, b1: Battle, pi: PlayerIndex, pool: Seq<char>)
    requires
        same_members(b0.allies, b1.allies),
        same_members(b0.baddies, b1.baddies),
    ensures
        b1.pool_at(pi, pool) == b0.pool_at(pi, pool),
{
    let p0 = b0.party_of(pi);
    let p1 = b1.party_of(pi);
    if 0 <= slot_of(pi) < p0.size() {
        assert(crate::party::same_standing(p0.at(slot_of(pi)), p1.at(slot_of(pi))));
    }
}

/// `x` kept within `lo` and `hi`.
pub open spec fn clamp(x: int, lo: int, hi: int) -> int {
    if x < lo {
        lo
    } else if x > hi {
        hi
    } else {
        x
    }
}

/// A constant hit of `v` passes through effect resolution unchanged; applied to a pool holding
/// `c` of at most `m` it leaves `c - v` kept within 0 and `m`; its message reports `v` as damage
/// when positive, no effect when zero, and `-v` as healing when negative.
pub proof fn lemma_constant_hit(
    v: i32,
    c: i32,
    m: i32,
    actor: Character,
    target: Character,
    sb: StatBlockEncyclopedia,
    name: Seq<char>,
    pool: Seq<char>,
)
    requires
        0 <= m,
    ensures
        hit_amount(HitAmt::Constant(v), actor, target, sb) == Ok::<i32, FormulaError>(v),
        hit_result(c as int, v as int, m as int) == clamp(c - v, 0, m as int),
        0 <= hit_result(c as int, v as int, m as int) <= m,
        v > 0 ==> hit_message(name, v, pool) == name + " took "@ + crate::text::decimal(v as nat) + " "@ + pool + " damage!"@,
        v == 0 ==> hit_message(name, v, pool) == "No effect on "@ + name + "..."@,
        v < 0 ==> hit_message(name, v, pool) == name + " was healed for "@ + crate::text::decimal((-v) as nat) + " "@ + pool + "!"@,
{
}

/// `pi` names a member of its side that exists and is not down.
pub open spec fn names_living(pi: PlayerIndex, allies: Party, baddies: Party) -> bool {
    match pi {
        PlayerIndex::Ally(s) => s < allies.size() && !allies.down_at(s as int),
        PlayerIndex::Baddy(s) => s < baddies.size() && !baddies.down_at(s as int),
    }
}

/// Targeting never starts on a member that is down, whatever the scope: every target it picks,
/// one or a whole side, is alive.
pub proof fn lemma_targets_are_living(scope: Scope, allies: Party, baddies: Party)
    requires
        allies.size() <= usize::MAX,
        baddies.size() <= usize::MAX,
    ensures
        initial_targets(scope, allies, baddies) matches Some(ts) ==> forall|j: int|
            0 <= j < ts.len() ==> names_living(#[trigger] ts[j], allies, baddies),
{
    lemma_living_from(allies, 0);
    lemma_living_from(baddies, 0);
    if let Some(ts) = initial_targets(scope, allies, baddies) {
        let la = living(allies);
        let lb = living(baddies);
        assert forall|j: int| 0 <= j < ts.len() implies names_living(#[trigger] ts[j], allies, baddies) by {
            if scope == Scope::All {
                if j < lb.len() {
                    assert(ts[j] == baddies_of(lb)[j]);
                } else {
                    assert(ts[j] == allies_of(la)[j - lb.len()]);
                }
            }
        }
    }
}

} // verus!
