use vstd::prelude::*;

use crate::common::{Id, IndexedOrLiteral, Name};
use crate::effect::Effect;
use crate::table::Table;

verus! {

/// A piece of equipment and what it adds to its bearer's statistics.
#[derive(Debug)]
pub struct Item {
    pub id: Id,
    pub name: Name,
    pub power: i32,
    pub stamina_mod: i32,
    pub strength_mod: i32,
    pub effect: IndexedOrLiteral<Effect>,
}

/// What `item` adds to the statistic `name`: only Strength and Stamina are modified.
pub open spec fn modifier_of(item: Item, name: Seq<char>) -> i32 {
    if name == "Strength"@ {
        item.strength_mod
    } else if name == "Stamina"@ {
        item.stamina_mod
    } else {
        0
    }
}

impl Item {
    pub fn get_modifier(&self, name: &Name) -> (r: i32)
        ensures
            r == modifier_of(*self, name@),
    {
        let strength = String::from_str("Strength");
        let stamina = String::from_str("Stamina");
        if *name == strength {
            self.strength_mod
        } else if *name == stamina {
            self.stamina_mod
        } else {
            0
        }
    }
}

pub type EquipmentSlot = Option<Item>;

pub type EquipmentSet = Table<EquipmentSlot>;

/// The power of what fills a slot; an empty slot has none.
pub fn equipment_power(equipment: &EquipmentSlot) -> (r: i32)
    ensures
        r == match equipment {
            None => 0,
            Some(i) => i.power,
        },
{
    match equipment {
        None => 0,
        Some(i) => i.power,
    }
}

/// What the item in a slot adds to the statistic `name`; an empty slot adds nothing.
pub fn equipment_mod(equipment: &EquipmentSlot, name: &Name) -> (r: i32)
    ensures
        r == match equipment {
            None => 0,
            Some(i) => modifier_of(*i, name@),
        },
{
    match equipment {
        None => 0,
        Some(i) => i.get_modifier(name),
    }
}

/// A new item with id 0 whose effect is the record with id 0.
pub fn create(name: String, power: i32, strength_mod: i32, stamina_mod: i32) -> (r: Item)
    ensures
        r.id == 0,
        r.name == name,
        r.power == power,
        r.strength_mod == strength_mod,
        r.stamina_mod == stamina_mod,
        r.effect == IndexedOrLiteral::<Effect>::Index(0),
{
    Item { id: 0, name, power, strength_mod, stamina_mod, effect: IndexedOrLiteral::Index(0) }
}

/// An empty Weapon slot followed by an empty Shield slot.
pub fn generate_equipment_set() -> (r: EquipmentSet)
    ensures
        r.entries@.len() == 2,
        r.entries@[0].0@ == "Weapon"@,
        r.entries@[0].1 is None,
        r.entries@[1].0@ == "Shield"@,
        r.entries@[1].1 is None,
{
    let mut equips: EquipmentSet = Table::new();
    equips.entries.push((String::from_str("Weapon"), None));
    equips.entries.push((String::from_str("Shield"), None));
    equips
}

} // verus!
