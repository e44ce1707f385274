use vstd::prelude::*;

use crate::character::Character;
use crate::common::{Hit, HitAmt, Hits, Id, Name};
use crate::encyclopedia::StatBlockEncyclopedia;
use crate::formula::{try_eval_hit, FormulaError};

verus! {

pub type Traits = Vec<Name>;

/// What an action does to each of its targets: a list of hits.
#[derive(Debug, Clone, PartialEq)]
pub struct Effect {
    pub id: Id,
    pub name: Name,
    pub hits: Hits,
    pub conditions: Hits,
    pub traits: Traits,
    pub msg: String,
}

impl Effect {
    pub fn new(id: Id, name: Name) -> (r: Effect)
        ensures
            r.id == id,
            r.name == name,
            r.hits@.len() == 0,
            r.conditions@.len() == 0,
            r.traits@.len() == 0,
            r.msg@.len() == 0,
    {
        Effect {
            id,
            name,
            hits: Vec::new(),
            conditions: Vec::new(),
            traits: Vec::new(),
            msg: String::new(),
        }
    }

    /// The message an effect carries when its record gives none.
    pub fn default_msg() -> (r: String)
        ensures
            r@ == "{:effect} was used on {:target}, and something happened maybe!"@,
    {
        String::from_str("{:effect} was used on {:target}, and something happened maybe!")
    }

    pub fn whoami(&self) -> (r: (Id, &str))
        ensures
            r.0 == self.id,
            r.1@ == self.name@,
    {
        (self.id, self.name.as_str())
    }
}

/// What a hit template amounts to when `actor` uses it on `target`.
pub open spec fn resolved_amount(a: HitAmt, actor: Character, target: Character, sb: StatBlockEncyclopedia) -> Result<i32, FormulaError> {
    match a {
        HitAmt::Constant(v) => Ok(v),
        HitAmt::Formula(f) => crate::formula::hit_formula_value(Some(actor), target, sb, f@),
    }
}

impl Effect {
    /// The effect's hits as `actor` deals them to `target`: each pool kept, each amount a constant,
    /// formulas evaluated. Fails where a formula has no value.
    pub fn actor_affect_target(&self, actor: &Character, target: &Character, statblocks: &StatBlockEncyclopedia) -> (r: Result<Hits, FormulaError>)
        ensures
            match r {
                Ok(hits) => hits@.len() == self.hits@.len() && forall|j: int| 0 <= j < hits@.len() ==> {
                    &&& (#[trigger] hits@[j]).pool == self.hits@[j].pool
                    &&& resolved_amount(self.hits@[j].amount, *actor, *target, *statblocks) == Ok::<i32, FormulaError>(hits@[j].amount->Constant_0)
                    &&& hits@[j].amount is Constant
                },
                Err(e) => exists|j: int| 0 <= j < self.hits@.len() && resolved_amount(#[trigger] self.hits@[j].amount, *actor, *target, *statblocks) == Err::<i32, FormulaError>(e),
            },
    {
        let mut hits: Hits = Vec::new();
        let mut j: usize = 0;
        while j < self.hits.len()
            invariant
                j <= self.hits@.len(),
                hits@.len() == j,
                forall|k: int| 0 <= k < j ==> {
                    &&& (#[trigger] hits@[k]).pool == self.hits@[k].pool
                    &&& resolved_amount(self.hits@[k].amount, *actor, *target, *statblocks) == Ok::<i32, FormulaError>(hits@[k].amount->Constant_0)
                    &&& hits@[k].amount is Constant
                },
            decreases self.hits@.len() - j,
        {
            let hit = &self.hits[j];
            let amount: i32 = match &hit.amount {
                HitAmt::Constant(v) => *v,
                HitAmt::Formula(f) => match try_eval_hit(f, Some(actor), target, statblocks) {
                    Ok(v) => v,
                    Err(e) => {
                        assert(resolved_amount(self.hits@[j as int].amount, *actor, *target, *statblocks) == Err::<i32, FormulaError>(e));
                        return Err(e);
                    },
                },
            };
            hits.push(Hit { pool: hit.pool.clone(), amount: HitAmt::Constant(amount) });
            j = j + 1;
        }
        Ok(hits)
    }
}

} // verus!
