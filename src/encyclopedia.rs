use std::collections::HashMap;
use vstd::prelude::*;

use crate::action::Action;
use crate::character::Character;
use crate::common::{Id, IndexedOrLiteral};
use crate::condition::Condition;
use crate::effect::Effect;
use crate::item::Item;
use crate::sprite::Sprite;
use crate::stats::StatBlock;

verus! {

broadcast use vstd::std_specs::hash::group_hash_axioms;

/// A read-only table of records by id, filled by whoever loads the game's data.
pub struct Encyclopedia<T> {
    pub en: HashMap<Id, T>,
}

impl<T> Encyclopedia<T> {
    /// The records, by id.
    pub open spec fn records(&self) -> Map<Id, T> {
        self.en@
    }

    /// The record that `iol` names or holds.
    pub open spec fn resolved(&self, iol: IndexedOrLiteral<T>) -> Option<T> {
        match iol {
            IndexedOrLiteral::Index(i) => if self.records().contains_key(i) {
                Some(self.records()[i])
            } else {
                None
            },
            IndexedOrLiteral::Literal(c) => Some(c),
        }
    }

    pub fn new(en: HashMap<Id, T>) -> (r: Encyclopedia<T>)
        ensures
            r.records() == en@,
    {
        Encyclopedia { en }
    }

    pub fn is_empty(&self) -> (r: bool)
        ensures
            r == (self.records().len() == 0),
    {
        self.en.len() == 0
    }

    pub fn len(&self) -> (r: usize)
        ensures
            r == self.records().len(),
    {
        self.en.len()
    }

    pub fn get(&self, id: &Id) -> (r: Option<&T>)
        ensures
            match r {
                Some(v) => self.records().contains_key(*id) && *v == self.records()[*id],
                None => !self.records().contains_key(*id),
            },
    {
        self.en.get(id)
    }

    pub fn resolve<'a>(&'a self, iol: &'a IndexedOrLiteral<T>) -> (r: Option<&'a T>)
        ensures
            match r {
                Some(v) => self.resolved(*iol) == Some(*v),
                None => self.resolved(*iol) is None,
            },
    {
        match iol {
            IndexedOrLiteral::Index(i) => self.get(i),
            IndexedOrLiteral::Literal(c) => Some(c),
        }
    }
}

pub type ActionEncyclopedia = Encyclopedia<Action>;
pub type CharacterEncyclopedia = Encyclopedia<Character>;
pub type ConditionEncyclopedia = Encyclopedia<Condition>;
pub type EffectEncyclopedia = Encyclopedia<Effect>;
pub type ItemEncyclopedia = Encyclopedia<Item>;
pub type StatBlockEncyclopedia = Encyclopedia<StatBlock>;
pub type SpriteEncyclopedia = Encyclopedia<Sprite>;

} // verus!
