use vstd::prelude::*;

use crate::common::{Formula, Id, Name};
use crate::encyclopedia::StatBlockEncyclopedia;
use crate::table::Table;

verus! {

pub type Stat = i32;

/// Base statistics by name.
pub type BaseStats = Table<Stat>;

/// A derived statistic is a formula over base statistics and equipment.
pub type DerivedStat = Formula;

pub type DerivedStats = Table<DerivedStat>;

/// A shared set of derived-stat formulas that characters refer to by id.
#[derive(Debug)]
pub struct StatBlock {
    pub id: Id,
    pub name: Name,
    pub base_stats: BaseStats,
    pub stats: DerivedStats,
}

impl StatBlock {
    /// The formula of the derived stat `name`.
    pub fn get_stat(&self, name: Name) -> (r: Option<&DerivedStat>)
        ensures
            match r {
                Some(f) => self.stats.lookup(name@) == Some(*f),
                None => self.stats.lookup(name@) is None,
            },
    {
        self.stats.get(&name)
    }
}

fn copy_base_stats(t: &BaseStats) -> (r: BaseStats)
    ensures
        r.entries@ == t.entries@,
{
    let mut r: BaseStats = Table::new();
    let mut i: usize = 0;
    while i < t.entries.len()
        invariant
            i <= t.entries@.len(),
            r.entries@ == t.entries@.subrange(0, i as int),
        decreases t.entries@.len() - i,
    {
        r.entries.push((t.entries[i].0.clone(), t.entries[i].1));
        i = i + 1;
        assert(r.entries@ =~= t.entries@.subrange(0, i as int));
    }
    assert(r.entries@ =~= t.entries@);
    r
}

fn copy_derived_stats(t: &DerivedStats) -> (r: DerivedStats)
    ensures
        r.entries@ == t.entries@,
{
    let mut r: DerivedStats = Table::new();
    let mut i: usize = 0;
    while i < t.entries.len()
        invariant
            i <= t.entries@.len(),
            r.entries@ == t.entries@.subrange(0, i as int),
        decreases t.entries@.len() - i,
    {
        r.entries.push((t.entries[i].0.clone(), t.entries[i].1.clone()));
        i = i + 1;
        assert(r.entries@ =~= t.entries@.subrange(0, i as int));
    }
    assert(r.entries@ =~= t.entries@);
    r
}

/// Copies of the base stats and derived-stat formulas of stat block `id`.
pub fn generate_stats(statblocks: &StatBlockEncyclopedia, id: &Id) -> (r: Option<(BaseStats, DerivedStats)>)
    ensures
        match r {
            Some((bs, ds)) => statblocks.records().contains_key(*id) && bs.entries@ == statblocks.records()[*id].base_stats.entries@
                && ds.entries@ == statblocks.records()[*id].stats.entries@,
            None => !statblocks.records().contains_key(*id),
        },
{
    match statblocks.get(id) {
        Some(sb) => Some((copy_base_stats(&sb.base_stats), copy_derived_stats(&sb.stats))),
        None => None,
    }
}

} // verus!
