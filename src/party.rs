use vstd::prelude::*;

use crate::character::{clock_gain, conditions_aged, conditions_known, is_down_spec, lemma_clock_gain_fair, sat_add_u16, Character};
use crate::formula::stat_value;
use crate::encyclopedia::{ConditionEncyclopedia, StatBlockEncyclopedia};
use crate::error::BattleError;
use crate::common::{Id, Name};
use crate::item::Item;

verus! {

pub type Group = Vec<Character>;

pub type Ordering = Vec<usize>;

pub type ItemPool = Vec<Item>;

pub type Clocks = Vec<u16>;

/// The value at which a clock makes its character ready to act.
pub const CLOCK_CEILING: u16 = 65535;

/// A side of a battle: characters in storage order, the formation that orders them on screen and
/// in turn order, one clock per formation slot, and shared items.
pub struct Party {
    pub id: Id,
    pub name: Name,
    pub group: Group,
    pub formation: Ordering,
    pub items: ItemPool,
    pub clocks: Clocks,
}

impl Party {
    /// The formation is a one-to-one map from slots onto the group, with a clock per slot.
    pub open spec fn wf(&self) -> bool {
        &&& self.formation@.len() == self.group@.len()
        &&& self.clocks@.len() == self.group@.len()
        &&& forall|s: int| 0 <= s < self.formation@.len() ==> #[trigger] self.formation@[s] < self.group@.len()
        &&& forall|s: int, t: int|
            0 <= s < t < self.formation@.len() ==> #[trigger] self.formation@[s] != #[trigger] self.formation@[t]
    }

    /// The number of members.
    pub open spec fn size(&self) -> int {
        self.formation@.len() as int
    }

    /// The member in formation slot `s`.
    pub open spec fn at(&self, s: int) -> Character {
        self.group@[self.formation@[s] as int]
    }

    /// Whether the member in slot `s` is down.
    pub open spec fn down_at(&self, s: int) -> bool {
        is_down_spec(self.at(s))
    }

    /// Whether every member is down.
    pub open spec fn all_down_spec(&self) -> bool {
        forall|s: int| 0 <= s < self.size() ==> #[trigger] self.down_at(s)
    }

    /// The first slot at or after `s` whose member has id `id`, or the party's size.
    pub open spec fn first_slot_of(&self, id: Id, s: int) -> int
        decreases self.size() - s,
    {
        if s < 0 || s >= self.size() {
            self.size()
        } else if self.at(s).id == id {
            s
        } else {
            self.first_slot_of(id, s + 1)
        }
    }

    /// `after` is this party without the member `c` of slot `s`, the first with id `id`; the
    /// later slots move up by one.
    pub open spec fn removed_at(&self, after: Party, s: int, c: Character, id: Id) -> bool {
        &&& 0 <= s < self.size()
        &&& self.at(s) == c
        &&& c.id == id
        &&& forall|t: int| 0 <= t < s ==> (#[trigger] self.at(t)).id != id
        &&& after.group@ == self.group@.remove(self.formation@[s] as int)
        &&& after.clocks@ == self.clocks@.remove(s)
        &&& after.size() == self.size() - 1
        &&& forall|t: int| 0 <= t < after.size() ==> #[trigger] after.at(t) == self.at(if t < s { t } else { t + 1 })
    }

    pub fn new(name: Name) -> (r: Party)
        ensures
            r.wf(),
            r.id == 0,
            r.name == name,
            r.group@.len() == 0,
            r.items@.len() == 0,
    {
        Party { id: 0, name, group: Vec::new(), formation: Vec::new(), items: Vec::new(), clocks: Vec::new() }
    }

    pub fn whoami(&self) -> (r: (Id, &str))
        ensures
            r.0 == self.id,
            r.1@ == self.name@,
    {
        (self.id, self.name.as_str())
    }

    /// Adds `ch` at the end of the group and of the formation, with its clock at 0.
    pub fn add_character(&mut self, ch: Character)
        requires
            old(self).wf(),
            old(self).group@.len() < usize::MAX,
        ensures
            final(self).wf(),
            final(self).group@ == old(self).group@.push(ch),
            final(self).formation@ == old(self).formation@.push(old(self).group@.len() as usize),
            final(self).clocks@ == old(self).clocks@.push(0),
            final(self).id == old(self).id,
            final(self).name == old(self).name,
    {
        self.group.push(ch);
        self.formation.push(self.group.len() - 1);
        self.clocks.push(0);
    }

    /// Removes the first member, in formation order, whose id is `id`, with its formation slot and
    /// clock; the formation still refers to the same characters.
    pub fn remove_character(&mut self, id: Id) -> (r: Option<Character>)
        requires
            old(self).wf(),
        ensures
            final(self).wf(),
            match r {
                Some(c) => old(self).removed_at(*final(self), old(self).first_slot_of(id, 0), c, id),
                None => {
                    &&& forall|s: int| 0 <= s < old(self).size() ==> (#[trigger] old(self).at(s)).id != id
                    &&& *final(self) == *old(self)
                },
            },
    {
        let mut s: usize = 0;
        let mut found = false;
        while s < self.formation.len()
            invariant_except_break
                !found,
            invariant
                self.wf(),
                *self == *old(self),
                s <= self.formation@.len(),
                forall|t: int| 0 <= t < s ==> (#[trigger] self.at(t)).id != id,
                self.first_slot_of(id, 0) == self.first_slot_of(id, s as int),
            ensures
                self.first_slot_of(id, 0) == self.first_slot_of(id, s as int),
                *self == *old(self),
                s <= self.formation@.len(),
                forall|t: int| 0 <= t < s ==> (#[trigger] self.at(t)).id != id,
                found ==> s < self.formation@.len() && self.at(s as int).id == id,
                !found ==> s == self.formation@.len(),
            decreases self.formation@.len() - s,
        {
            if self.group[self.formation[s]].matches(id) {
                found = true;
                break;
            }
            s = s + 1;
        }
        if !found {
            return None;
        }
        let ghost old_self = *self;
        let index = self.formation[s];
        let removed = self.group.remove(index);
        self.formation.remove(s);
        self.clocks.remove(s);
        let mut k: usize = 0;
        while k < self.formation.len()
            invariant
                self.formation@.len() == old_self.formation@.len() - 1,
                k <= self.formation@.len(),
                index == old_self.formation@[s as int],
                self.group@ == old_self.group@.remove(index as int),
                self.clocks@ == old_self.clocks@.remove(s as int),
                self.id == old_self.id,
                self.name == old_self.name,
                removed == old_self.group@[index as int],
                s < old_self.formation@.len(),
                old_self.wf(),
                forall|t: int| 0 <= t < k ==> #[trigger] self.formation@[t] == {
                    let o = old_self.formation@[if t < s { t } else { t + 1 }];
                    if o > index { (o - 1) as usize } else { o }
                },
                forall|t: int| k <= t < self.formation@.len() ==> #[trigger] self.formation@[t] == old_self.formation@[if t < s { t } else { t + 1 }],
            decreases self.formation@.len() - k,
        {
            let f = self.formation[k];
            if f > index {
                self.formation.set(k, f - 1);
            }
            k = k + 1;
        }
        proof {
            assert forall|t: int| 0 <= t < self.formation@.len() implies #[trigger] self.formation@[t] < self.group@.len() by {
                let u = if t < s { t } else { t + 1 };
                assert(old_self.formation@[u] != old_self.formation@[s as int]);
            }
            assert forall|t1: int, t2: int| 0 <= t1 < t2 < self.formation@.len() implies #[trigger] self.formation@[t1] != #[trigger] self.formation@[t2] by {
                let u1 = if t1 < s { t1 } else { t1 + 1 };
                let u2 = if t2 < s { t2 } else { t2 + 1 };
                assert(old_self.formation@[u1] != old_self.formation@[u2]);
                assert(old_self.formation@[u1] != old_self.formation@[s as int]);
                assert(old_self.formation@[u2] != old_self.formation@[s as int]);
            }
            assert forall|t: int| 0 <= t < self.size() implies #[trigger] self.at(t) == old_self.at(if t < s { t } else { t + 1 }) by {
                let u = if t < s { t } else { t + 1 };
                assert(old_self.formation@[u] != old_self.formation@[s as int]);
            }
            assert(old_self.at(s as int) == removed);
            assert(old_self.removed_at(*self, s as int, removed, id));
            assert(old_self == *old(self));
            assert(old(self).removed_at(*self, s as int, removed, id));
        }

        Some(removed)
    }

    pub fn is_empty(&self) -> (r: bool)
        ensures
            r == (self.group@.len() == 0),
    {
        self.group.len() == 0
    }

    pub fn len(&self) -> (r: usize)
        ensures
            r == self.group@.len(),
    {
        self.group.len()
    }

    /// The member in formation slot `i`.
    pub fn get_ch_by_pos(&self, i: usize) -> (r: Option<&Character>)
        requires
            self.wf(),
        ensures
            match r {
                Some(c) => i < self.size() && *c == self.at(i as int),
                None => i >= self.size(),
            },
    {
        if i < self.formation.len() {
            Some(&self.group[self.formation[i]])
        } else {
            None
        }
    }

    /// The member in formation slot `i`, to be changed in place.
    pub fn get_mut_ch_by_pos(&mut self, i: usize) -> (r: Option<&mut Character>)
        requires
            old(self).wf(),
        ensures
            match r {
                Some(c) => {
                    &&& i < old(self).size()
                    &&& *c == old(self).at(i as int)
                    &&& final(self).group@ == old(self).group@.update(old(self).formation@[i as int] as int, *final(c))
                    &&& final(self).formation == old(self).formation
                    &&& final(self).clocks == old(self).clocks
                    &&& final(self).id == old(self).id
                    &&& final(self).name == old(self).name
                },
                None => i >= old(self).size() && *final(self) == *old(self),
            },
    {
        if i < self.formation.len() {
            let k = self.formation[i];
            Some(&mut self.group[k])
        } else {
            None
        }
    }

    /// Takes the turn of the first member, in formation order, whose clock has reached the ceiling
    /// and who is not down: its clock goes back to 0 and its slot is returned.
    pub fn get_ready_ch_pos(&mut self) -> (r: Option<usize>)
        requires
            old(self).wf(),
        ensures
            final(self).wf(),
            final(self).group == old(self).group,
            final(self).formation == old(self).formation,
            final(self).id == old(self).id,
            final(self).name == old(self).name,
            match r {
                Some(s) => {
                    &&& s < old(self).size()
                    &&& old(self).clocks@[s as int] == CLOCK_CEILING
                    &&& !old(self).down_at(s as int)
                    &&& forall|t: int|
                        0 <= t < s ==> !(old(self).clocks@[t] == CLOCK_CEILING && !old(self).down_at(t))
                    &&& final(self).clocks@ == old(self).clocks@.update(s as int, 0)
                },
                None => {
                    &&& forall|t: int|
                        0 <= t < old(self).size() ==> !(old(self).clocks@[t] == CLOCK_CEILING && !old(
                            self,
                        ).down_at(t))
                    &&& final(self).clocks == old(self).clocks
                },
            },
    {
        let mut i: usize = 0;
        while i < self.clocks.len()
            invariant
                self.wf(),
                i <= self.clocks@.len(),
                forall|t: int| 0 <= t < i ==> !(self.clocks@[t] == CLOCK_CEILING && !self.down_at(t)),
                *self == *old(self),
            decreases self.clocks@.len() - i,
        {
            if self.clocks[i] == CLOCK_CEILING && !self.group[self.formation[i]].is_down() {
                self.clocks.set(i, 0);
                return Some(i);
            }
            i = i + 1;
        }
        None
    }

    /// The items the party carries.
    pub fn items_iter(&self) -> (r: &Vec<Item>)
        ensures
            *r == self.items,
    {
        &self.items
    }

    /// Whether every member is down.
    pub fn all_down(&self) -> (r: bool)
        requires
            self.wf(),
        ensures
            r == self.all_down_spec(),
    {
        let mut i: usize = 0;
        while i < self.formation.len()
            invariant
                self.wf(),
                i <= self.formation@.len(),
                forall|t: int| 0 <= t < i ==> #[trigger] self.down_at(t),
            decreases self.formation@.len() - i,
        {
            if !self.group[self.formation[i]].is_down() {
                assert(!self.down_at(i as int));
                return false;
            }
            i = i + 1;
        }
        true
    }
}

/// Every member's clock gain over `dt` ticks can be derived and every live condition is known.
pub open spec fn party_sound(p: Party, dt: u16, sb: StatBlockEncyclopedia, cenc: ConditionEncyclopedia) -> bool {
    forall|s: int| 0 <= s < p.size() ==> clock_gain(#[trigger] p.at(s), dt, sb) is Some && conditions_known(p.at(s), cenc)
}

/// `after` is `before` one advance of `dt` ticks later: every clock has moved by what its member
/// gains, saturating at the ceiling, and every member's live conditions have aged.
pub open spec fn clocks_advanced(
    before: Party,
    after: Party,
    dt: u16,
    conditions: ConditionEncyclopedia,
    statblocks: StatBlockEncyclopedia,
) -> bool {
    forall|s: int| 0 <= s < before.size() ==> {
        &&& clock_gain(#[trigger] before.at(s), dt, statblocks) is Some
        &&& after.clocks@[s] == sat_add_u16(before.clocks@[s] as int, clock_gain(before.at(s), dt, statblocks)->Some_0 as int)
        &&& conditions_aged(before.at(s), after.at(s), conditions, dt)
    }
}

/// Two members that are up, whose Speed derives to the same value and whose clocks are level,
/// still have level clocks after the clocks advance; a member that is down keeps its clock.
pub proof fn lemma_clocks_stay_level(
    before: Party,
    after: Party,
    dt: u16,
    conditions: ConditionEncyclopedia,
    statblocks: StatBlockEncyclopedia,
    s: int,
    t: int,
)
    requires
        0 <= s < before.size(),
        0 <= t < before.size(),
        clocks_advanced(before, after, dt, conditions, statblocks),
    ensures
        !before.down_at(s) && !before.down_at(t) && before.clocks@[s] == before.clocks@[t]
            && stat_value(before.at(s), "Speed"@, 0, statblocks) == stat_value(before.at(t), "Speed"@, 0, statblocks)
            ==> after.clocks@[s] == after.clocks@[t],
        before.down_at(s) ==> after.clocks@[s] == before.clocks@[s],
{
    lemma_clock_gain_fair(before.at(s), before.at(t), dt, statblocks);
    assert(clock_gain(before.at(s), dt, statblocks) is Some);
    assert(clock_gain(before.at(t), dt, statblocks) is Some);
}

impl Party {
    /// Advances every member's clock by what it gains in `dt` ticks, saturating at the ceiling,
    /// and ages every member's live conditions.
    pub fn increment_clocks(&mut self, dt: u16, conditions: &ConditionEncyclopedia, statblocks: &StatBlockEncyclopedia) -> (r: Result<(), BattleError>)
        requires
            old(self).wf(),
        ensures
            final(self).wf(),
            final(self).formation == old(self).formation,
            final(self).id == old(self).id,
            final(self).name == old(self).name,
            r is Ok ==> clocks_advanced(*old(self), *final(self), dt, *conditions, *statblocks),
            party_sound(*old(self), dt, *statblocks, *conditions) ==> r is Ok,
    {
        let ghost before = *self;
        let mut s: usize = 0;
        while s < self.formation.len()
            invariant
                self.wf(),
                before.wf(),
                before == *old(self),
                s <= self.formation@.len(),
                self.formation == before.formation,
                self.id == before.id,
                self.name == before.name,
                forall|t: int| 0 <= t < s ==> {
                    &&& clock_gain(#[trigger] before.at(t), dt, *statblocks) is Some
                    &&& self.clocks@[t] == sat_add_u16(before.clocks@[t] as int, clock_gain(before.at(t), dt, *statblocks)->Some_0 as int)
                    &&& conditions_aged(before.at(t), self.at(t), *conditions, dt)
                },
                forall|t: int| s <= t < self.formation@.len() ==> #[trigger] self.clocks@[t] == before.clocks@[t] && self.at(t) == before.at(t),
            decreases self.formation@.len() - s,
        {
            let k = self.formation[s];
            let ghost prev = *self;
            let ghost oc = self.group@[k as int];
            assert(self.clocks@[s as int] == before.clocks@[s as int]);
            assert(oc == before.at(s as int));
            let d = {
                let ch = &mut self.group[k];
                match ch.dclock(dt, conditions, statblocks) {
                    Ok(d) => d,
                    Err(e) => {
                        proof {
                            assert(oc == before.at(s as int));
                            assert(clock_gain(oc, dt, *statblocks) is None || !conditions_known(oc, *conditions));
                            assert(clock_gain(before.at(s as int), dt, *statblocks) is None
                                || !conditions_known(before.at(s as int), *conditions));
                        }
                        return Err(e);
                    },
                }
            };
            let c = self.clocks[s];
            let nc: u16 = if c as u32 + d as u32 > u16::MAX as u32 { u16::MAX } else { c + d };
            self.clocks.set(s, nc);
            proof {
                assert forall|t: int| 0 <= t < self.formation@.len() && t != s implies self.at(t) == prev.at(t) by {
                    assert(self.formation@[t] != self.formation@[s as int]);
                }
                assert(prev.at(s as int) == before.at(s as int));
                assert(clock_gain(before.at(s as int), dt, *statblocks) == Some(d));
                assert(conditions_aged(before.at(s as int), self.at(s as int), *conditions, dt));
                assert(self.clocks@[s as int] == sat_add_u16(before.clocks@[s as int] as int, d as int));
                assert forall|t: int| 0 <= t < s + 1 implies {
                    &&& clock_gain(#[trigger] before.at(t), dt, *statblocks) is Some
                    &&& self.clocks@[t] == sat_add_u16(before.clocks@[t] as int, clock_gain(before.at(t), dt, *statblocks)->Some_0 as int)
                    &&& conditions_aged(before.at(t), self.at(t), *conditions, dt)
                } by {
                    if t < s {
                        assert(self.at(t) == prev.at(t));
                        assert(self.clocks@[t] == prev.clocks@[t]);
                    }
                }
                assert forall|t: int| s + 1 <= t < self.formation@.len() implies #[trigger] self.clocks@[t] == before.clocks@[t] && self.at(t) == before.at(t) by {
                    assert(self.at(t) == prev.at(t));
                    assert(prev.clocks@[t] == before.clocks@[t]);
                }
            }
            s = s + 1;
        }
        Ok(())
    }
}

/// The slots from `s` on whose members are not down, in formation order.
pub open spec fn living_from(p: Party, s: int) -> Seq<usize>
    decreases p.size() - s,
{
    if s < 0 || s >= p.size() {
        Seq::empty()
    } else if !p.down_at(s) {
        seq![s as usize] + living_from(p, s + 1)
    } else {
        living_from(p, s + 1)
    }
}

/// The slots whose members are not down, in formation order.
pub open spec fn living(p: Party) -> Seq<usize> {
    living_from(p, 0)
}

/// Every slot listed as living is a slot of a member that is not down.
pub proof fn lemma_living_from(p: Party, s: int)
    requires
        0 <= s,
        p.size() <= usize::MAX,
    ensures
        forall|j: int| 0 <= j < living_from(p, s).len() ==> s <= #[trigger] living_from(p, s)[j] < p.size() && !p.down_at(living_from(p, s)[j] as int),
        p.all_down_spec() ==> living_from(p, s).len() == 0,
    decreases p.size() - s,
{
    if s < p.size() {
        lemma_living_from(p, s + 1);
        if !p.down_at(s) {
            let rest = living_from(p, s + 1);
            assert(living_from(p, s) == seq![s as usize] + rest);
            assert forall|j: int| 0 <= j < living_from(p, s).len() implies s <= #[trigger] living_from(p, s)[j] < p.size() && !p.down_at(living_from(p, s)[j] as int) by {
                if j > 0 {
                    assert(living_from(p, s)[j] == rest[j - 1]);
                }
            }
        } else {
            assert(living_from(p, s) == living_from(p, s + 1));
        }
    }
}

impl Party {
    /// The slots of the members that are not down, in formation order.
    pub fn living_slots(&self) -> (r: Vec<usize>)
        requires
            self.wf(),
        ensures
            r@ == living(*self),
    {
        let mut r: Vec<usize> = Vec::new();
        let mut s: usize = self.formation.len();
        while s > 0
            invariant
                self.wf(),
                s <= self.formation@.len(),
                r@ == living_from(*self, s as int),
            decreases s,
        {
            s = s - 1;
            if !self.group[self.formation[s]].is_down() {
                let mut n: Vec<usize> = Vec::new();
                n.push(s);
                n.append(&mut r);
                r = n;
                assert(r@ =~= seq![s] + living_from(*self, s + 1));
            }
        }
        r
    }

    /// How many members are not down.
    pub fn get_num_up(&self) -> (r: usize)
        requires
            self.wf(),
        ensures
            r == living(*self).len(),
    {
        self.living_slots().len()
    }

    /// The slot of the `n`-th member, in formation order, that is not down.
    pub fn get_nth_up_pos(&self, n: usize) -> (r: usize)
        requires
            self.wf(),
            n < living(*self).len(),
        ensures
            r == living(*self)[n as int],
    {
        let l = self.living_slots();
        l[n]
    }
}

/// `c1` stands where `c0` did as far as turns go: the same pools, statistics and stat block, and
/// live conditions of the same ids.
pub open spec fn same_standing(c0: Character, c1: Character) -> bool {
    &&& c1.pools == c0.pools
    &&& c1.base_stats == c0.base_stats
    &&& c1.stats == c0.stats
    &&& c1.conditions@.len() == c0.conditions@.len()
    &&& forall|i: int| 0 <= i < c0.conditions@.len() ==> (#[trigger] c1.conditions@[i]).condition_id == c0.conditions@[i].condition_id
}

/// `p1` has the members of `p0`, in the same formation, each standing where it stood.
pub open spec fn same_members(p0: Party, p1: Party) -> bool {
    &&& p1.formation == p0.formation
    &&& p1.group@.len() == p0.group@.len()
    &&& forall|t: int| 0 <= t < p0.size() ==> same_standing(#[trigger] p0.at(t), p1.at(t))
}

/// Members standing alike gain alike, are down alike, and have known conditions alike.
pub proof fn lemma_same_standing(c0: Character, c1: Character, dt: u16, sb: StatBlockEncyclopedia, cenc: ConditionEncyclopedia)
    requires
        same_standing(c0, c1),
    ensures
        clock_gain(c1, dt, sb) == clock_gain(c0, dt, sb),
        conditions_known(c1, cenc) == conditions_known(c0, cenc),
        is_down_spec(c1) == is_down_spec(c0),
{
    assert((|t: Seq<char>| crate::formula::stat_term_value(c0, "Speed"@, t)) =~= (|t: Seq<char>| crate::formula::stat_term_value(c1, "Speed"@, t)));
    if conditions_known(c0, cenc) {
        assert forall|i: int| 0 <= i < c1.conditions@.len() implies cenc.records().contains_key(#[trigger] c1.conditions@[i].condition_id) by {
            assert(c0.conditions@[i].condition_id == c1.conditions@[i].condition_id);
        }
    }
    if conditions_known(c1, cenc) {
        assert forall|i: int| 0 <= i < c0.conditions@.len() implies cenc.records().contains_key(#[trigger] c0.conditions@[i].condition_id) by {
            assert(c0.conditions@[i].condition_id == c1.conditions@[i].condition_id);
        }
    }
}

/// An advance of the clocks keeps every member standing where it stood.
pub proof fn lemma_advance_keeps_members(
    p0: Party,
    p1: Party,
    p2: Party,
    dt: u16,
    conditions: ConditionEncyclopedia,
    statblocks: StatBlockEncyclopedia,
)
    requires
        same_members(p0, p1),
        clocks_advanced(p1, p2, dt, conditions, statblocks),
        p2.formation == p1.formation,
        p2.group@.len() == p1.group@.len(),
    ensures
        same_members(p0, p2),
{
    assert forall|t: int| 0 <= t < p0.size() implies same_standing(#[trigger] p0.at(t), p2.at(t)) by {
        assert(same_standing(p0.at(t), p1.at(t)));
        assert(conditions_aged(p1.at(t), p2.at(t), conditions, dt));
        let c1 = p1.at(t);
        let c2 = p2.at(t);
        assert forall|i: int| 0 <= i < p0.at(t).conditions@.len() implies (#[trigger] c2.conditions@[i]).condition_id == p0.at(t).conditions@[i].condition_id by {
            assert(crate::character::aged(c1.conditions@[i], c2.conditions@[i], conditions.records()[c1.conditions@[i].condition_id], dt));
        }
    }
}

} // verus!
