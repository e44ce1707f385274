use vstd::prelude::*;

use crate::common::{Hit, IndexedOrLiteral, Name, PlayerType};
use crate::effect::{Effect, Traits};
use crate::table::Table;
use crate::stats::Stat;

verus! {

/// Something that recurs every `period` clock ticks.
#[derive(Debug)]
pub struct Repeat<T> {
    pub rep: T,
    pub period: u16,
    pub number: Option<u16>,
}

pub type RepeatEffects = Vec<Repeat<IndexedOrLiteral<Effect>>>;

pub type RepeatHits = Vec<Repeat<Hit>>;

/// How a condition shows on screen: an ANSI colour value.
#[derive(Debug, Clone, Copy)]
pub enum Visual {
    AnsiValue(u8),
}

/// A named, optionally time-limited status.
#[derive(Debug)]
pub struct Condition {
    pub name: Name,
    pub duration: Option<u16>,
    pub removed_by: Traits,
    pub repeat_effects: RepeatEffects,
    pub repeat_hits: RepeatHits,
    pub mods: Table<Table<Stat>>,
    pub play_override: Option<PlayerType>,
    pub visual: Option<Visual>,
}

/// A live condition on one character: how long it has lasted and the countdowns of its repeats.
#[derive(Debug, Clone)]
pub struct TargetCondition {
    pub condition_id: u64,
    pub duration: u16,
    pub repeat_effect_countdowns: Vec<u16>,
    pub repeat_hit_countdowns: Vec<u16>,
}

pub type TargetConditions = Vec<TargetCondition>;

} // verus!
