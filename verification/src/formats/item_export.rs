use vstd::prelude::*;
use crate::formats::item_info::{
    element_sum, exportable, ItemInfo, ItemInfoTable, ItemModel,
};
use crate::formats::item_strings::{ItemStrings, ItemStringsModel};

verus! {

/// Language-neutral text of an item.
#[derive(Debug, PartialEq, Eq)]
pub struct ItemTextData {
    pub name: Vec<u8>,
    pub article_type_code: Option<u32>,
    pub singular_name: Option<Vec<u8>>,
    pub plural_name: Option<Vec<u8>>,
    pub description: Option<Vec<u8>>,
}

#[derive(Debug, Clone, Copy, PartialEq, Eq, Structural)]
pub struct ItemEquipmentData {
    pub level: u16,
    pub slots_bits: u16,
    pub races_bits: u16,
    pub jobs_bits: u32,
    pub superior_level: Option<u16>,
    pub shield_size: Option<u16>,
    pub max_charges: u8,
    pub casting_time: u8,
    pub use_delay: u16,
    pub reuse_delay: u32,
    pub unknown1: u16,
    pub ilevel: u8,
    pub unknown2: u8,
    pub unknown3: u32,
}

#[derive(Debug, Clone, Copy, PartialEq, Eq, Structural)]
pub struct ItemWeaponData {
    pub damage: u16,
    pub delay: u16,
    pub dps: u16,
    pub skill_type_code: u8,
    pub jug_size: u8,
    pub unknown1: Option<u32>,
}

#[derive(Debug, Clone, Copy, PartialEq, Eq, Structural)]
pub struct ItemPuppetData {
    pub slot_code: u16,
    pub element_charge: u32,
    pub unknown1: u32,
}

#[derive(Debug, Clone, Copy, PartialEq, Eq, Structural)]
pub struct ItemInstinctData {
    pub unknown1: u32,
    pub unknown2: u32,
    pub unknown3: u16,
    pub instinct_cost: u16,
    pub unknown4: u16,
    pub unknown5: u32,
    pub unknown6: u32,
    pub unknown7: u32,
}

#[derive(Debug, Clone, Copy, PartialEq, Eq, Structural)]
pub struct ItemFurnishingData {
    pub element_code: u16,
    pub storage_slots: u32,
    pub unknown3: Option<u32>,
}

#[derive(Debug, Clone, Copy, PartialEq, Eq, Structural)]
pub struct ItemUsableData {
    pub activation_time: u16,
    pub unknown1: u32,
    pub unknown2: Option<u32>,
    pub unknown3: Option<u32>,
}

#[derive(Debug, Clone, Copy, PartialEq, Eq, Structural)]
pub struct ItemCurrencyData {
    pub unknown1: u16,
}

#[derive(Debug, Clone, Copy, PartialEq, Eq)]
pub struct ItemSlipData {
    pub unknown1: u16,
    pub unknowns: [u32; 17],
}

#[derive(Debug, Clone, Copy, PartialEq, Eq)]
pub struct ItemMonipulatorData {
    pub unknown1: u16,
    pub unknowns: [u32; 24],
}

/// Language-neutral numeric data of an item.
#[derive(Debug, Clone, Copy, PartialEq, Eq)]
pub struct ItemData {
    pub id: u32,
    pub flags_bits: u16,
    pub stack_size: u16,
    pub item_type_code: u16,
    pub resource_id: u16,
    pub valid_targets_bits: u16,
    pub equipment: Option<ItemEquipmentData>,
    pub weapon: Option<ItemWeaponData>,
    pub puppet: Option<ItemPuppetData>,
    pub instinct: Option<ItemInstinctData>,
    pub furnishing: Option<ItemFurnishingData>,
    pub usable: Option<ItemUsableData>,
    pub currency: Option<ItemCurrencyData>,
    pub slip: Option<ItemSlipData>,
    pub monipulator: Option<ItemMonipulatorData>,
}

/// One exported item: its data and its text, if it has any.
#[derive(Debug, PartialEq, Eq)]
pub struct ItemEntry {
    pub data: ItemData,
    pub text: Option<ItemTextData>,
}

/// `d` holds exactly the numeric fields of the record `m`, flag sets and
/// codes as plain numbers.
pub open spec fn data_matches(d: ItemData, m: ItemModel) -> bool {
    &&& d.id == m.id
    &&& d.flags_bits == m.flags
    &&& d.stack_size == m.stack_size
    &&& d.item_type_code == m.item_type
    &&& d.resource_id == m.resource_id
    &&& d.valid_targets_bits == m.valid_targets
    &&& match (d.equipment, m.payload.equipment) {
        (Some(x), Some(e)) => x == ItemEquipmentData {
            level: e.level,
            slots_bits: e.slots,
            races_bits: e.races,
            jobs_bits: e.jobs,
            superior_level: e.superior_level,
            shield_size: e.shield_size,
            max_charges: e.max_charges,
            casting_time: e.casting_time,
            use_delay: e.use_delay,
            reuse_delay: e.reuse_delay,
            unknown1: e.unknown1,
            ilevel: e.ilevel,
            unknown2: e.unknown2,
            unknown3: e.unknown3,
        },
        (None, None) => true,
        _ => false,
    }
    &&& match (d.weapon, m.payload.weapon) {
        (Some(x), Some(w)) => x == ItemWeaponData {
            damage: w.damage,
            delay: w.delay,
            dps: w.dps,
            skill_type_code: w.skill_type,
            jug_size: w.jug_size,
            unknown1: w.unknown1,
        },
        (None, None) => true,
        _ => false,
    }
    &&& match (d.puppet, m.payload.puppet) {
        (Some(x), Some(p)) => x == ItemPuppetData {
            slot_code: p.slot,
            element_charge: element_sum(p.element_charge) as u32,
            unknown1: p.unknown1,
        },
        (None, None) => true,
        _ => false,
    }
    &&& match (d.instinct, m.payload.instinct) {
        (Some(x), Some(i)) => x == ItemInstinctData {
            unknown1: i.unknown1,
            unknown2: i.unknown2,
            unknown3: i.unknown3,
            instinct_cost: i.instinct_cost,
            unknown4: i.unknown4,
            unknown5: i.unknown5,
            unknown6: i.unknown6,
            unknown7: i.unknown7,
        },
        (None, None) => true,
        _ => false,
    }
    &&& match (d.furnishing, m.payload.furnishing) {
        (Some(x), Some(f)) => x == ItemFurnishingData {
            element_code: f.element,
            storage_slots: f.storage_slots,
            unknown3: f.unknown3,
        },
        (None, None) => true,
        _ => false,
    }
    &&& match (d.usable, m.payload.usable_item) {
        (Some(x), Some(u)) => x == ItemUsableData {
            activation_time: u.activation_time,
            unknown1: u.unknown1,
            unknown2: u.unknown2,
            unknown3: u.unknown3,
        },
        (None, None) => true,
        _ => false,
    }
    &&& match (d.currency, m.payload.currency) {
        (Some(x), Some(c)) => x.unknown1 == c.unknown1,
        (None, None) => true,
        _ => false,
    }
    &&& match (d.slip, m.payload.slip) {
        (Some(x), Some(s)) => x.unknown1 == s.0 && x.unknowns@ == s.1,
        (None, None) => true,
        _ => false,
    }
    &&& match (d.monipulator, m.payload.monipulator) {
        (Some(x), Some(s)) => x.unknown1 == s.0 && x.unknowns@ == s.1,
        (None, None) => true,
        _ => false,
    }
}

/// The text fields of `t`, as sequences, for each item string shape.
pub open spec fn text_matches(t: Option<ItemTextData>, s: Option<ItemStringsModel>) -> bool {
    match (t, s) {
        (None, None) => true,
        (
            Some(t),
            Some(ItemStringsModel::English { name, article_type, singular_name, plural_name, description }),
        ) => {
            &&& t.name@ == name
            &&& t.article_type_code == Some(article_type)
            &&& t.singular_name is Some && t.singular_name->0@ == singular_name
            &&& t.plural_name is Some && t.plural_name->0@ == plural_name
            &&& t.description is Some && t.description->0@ == description
        },
        (Some(t), Some(ItemStringsModel::Japanese { name, description })) => {
            &&& t.name@ == name
            &&& t.article_type_code is None
            &&& t.singular_name is None
            &&& t.plural_name is None
            &&& t.description is Some && t.description->0@ == description
        },
        (Some(t), Some(ItemStringsModel::Name { name })) => {
            &&& t.name@ == name
            &&& t.article_type_code is None
            &&& t.singular_name is None
            &&& t.plural_name is None
            &&& t.description is None
        },
        _ => false,
    }
}

fn clone_bytes(v: &Vec<u8>) -> (r: Vec<u8>)
    ensures
        r@ == v@,
{
    crate::bytes::copy_range(v.as_slice(), 0, v.len())
}

impl ItemInfo {
    /// The item's text in language-neutral form.
    pub fn text(&self) -> (t: Option<ItemTextData>)
        ensures
            text_matches(t, self@.strings),
    {
        match &self.strings {
            None => None,
            Some(ItemStrings::English { name, article_type, singular_name, plural_name, description }) => {
                Some(
                    ItemTextData {
                        name: clone_bytes(name),
                        article_type_code: Some(*article_type),
                        singular_name: Some(clone_bytes(singular_name)),
                        plural_name: Some(clone_bytes(plural_name)),
                        description: Some(clone_bytes(description)),
                    },
                )
            },
            Some(ItemStrings::Japanese { name, description }) => Some(
                ItemTextData {
                    name: clone_bytes(name),
                    article_type_code: None,
                    singular_name: None,
                    plural_name: None,
                    description: Some(clone_bytes(description)),
                },
            ),
            Some(ItemStrings::Name { name }) => Some(
                ItemTextData {
                    name: clone_bytes(name),
                    article_type_code: None,
                    singular_name: None,
                    plural_name: None,
                    description: None,
                },
            ),
        }
    }

    /// The item's numeric data in language-neutral form.
    pub fn data(&self) -> (d: ItemData)
        requires
            exportable(self@),
        ensures
            data_matches(d, self@),
    {
        ItemData {
            id: self.id,
            flags_bits: self.flags,
            stack_size: self.stack_size,
            item_type_code: self.item_type,
            resource_id: self.resource_id,
            valid_targets_bits: self.valid_targets,
            equipment: match &self.equipment {
                Some(e) => Some(
                    ItemEquipmentData {
                        level: e.level,
                        slots_bits: e.slots,
                        races_bits: e.races,
                        jobs_bits: e.jobs,
                        superior_level: e.superior_level,
                        shield_size: e.shield_size,
                        max_charges: e.max_charges,
                        casting_time: e.casting_time,
                        use_delay: e.use_delay,
                        reuse_delay: e.reuse_delay,
                        unknown1: e.unknown1,
                        ilevel: e.ilevel,
                        unknown2: e.unknown2,
                        unknown3: e.unknown3,
                    },
                ),
                None => None,
            },
            weapon: match &self.weapon {
                Some(w) => Some(
                    ItemWeaponData {
                        damage: w.damage,
                        delay: w.delay,
                        dps: w.dps,
                        skill_type_code: w.skill_type,
                        jug_size: w.jug_size,
                        unknown1: w.unknown1,
                    },
                ),
                None => None,
            },
            puppet: match &self.puppet {
                Some(p) => Some(
                    ItemPuppetData {
                        slot_code: p.slot,
                        element_charge: p.element_charge.to_u32(),
                        unknown1: p.unknown1,
                    },
                ),
                None => None,
            },
            instinct: match &self.instinct {
                Some(i) => Some(
                    ItemInstinctData {
                        unknown1: i.unknown1,
                        unknown2: i.unknown2,
                        unknown3: i.unknown3,
                        instinct_cost: i.instinct_cost,
                        unknown4: i.unknown4,
                        unknown5: i.unknown5,
                        unknown6: i.unknown6,
                        unknown7: i.unknown7,
                    },
                ),
                None => None,
            },
            furnishing: match &self.furnishing {
                Some(f) => Some(
                    ItemFurnishingData {
                        element_code: f.element,
                        storage_slots: f.storage_slots,
                        unknown3: f.unknown3,
                    },
                ),
                None => None,
            },
            usable: match &self.usable_item {
                Some(u) => Some(
                    ItemUsableData {
                        activation_time: u.activation_time,
                        unknown1: u.unknown1,
                        unknown2: u.unknown2,
                        unknown3: u.unknown3,
                    },
                ),
                None => None,
            },
            currency: match &self.currency {
                Some(c) => Some(ItemCurrencyData { unknown1: c.unknown1 }),
                None => None,
            },
            slip: match &self.slip {
                Some(s) => Some(ItemSlipData { unknown1: s.unknown1, unknowns: s.unknowns }),
                None => None,
            },
            monipulator: match &self.monipulator {
                Some(m) => Some(ItemMonipulatorData { unknown1: m.unknown1, unknowns: m.unknowns }),
                None => None,
            },
        }
    }
}

impl ItemInfoTable {
    /// The table's items in language-neutral form, in table order.
    pub fn neutral_entries(&self) -> (entries: Vec<ItemEntry>)
        requires
            forall|i: int| 0 <= i < self.items@.len() ==> exportable(#[trigger] self.items@[i]@),
        ensures
            entries@.len() == self.items@.len(),
            forall|i: int|
                0 <= i < entries@.len() ==> data_matches(#[trigger] entries@[i].data, self.items@[i]@)
                    && text_matches(entries@[i].text, self.items@[i]@.strings),
    {
        let mut entries: Vec<ItemEntry> = Vec::new();
        let mut k: usize = 0;
        while k < self.items.len()
            invariant
                k <= self.items@.len(),
                entries@.len() == k,
                forall|i: int| 0 <= i < self.items@.len() ==> exportable(#[trigger] self.items@[i]@),
                forall|i: int|
                    0 <= i < k ==> data_matches(#[trigger] entries@[i].data, self.items@[i]@)
                        && text_matches(entries@[i].text, self.items@[i]@.strings),
            decreases self.items@.len() - k,
        {
            let item = &self.items[k];
            let entry = ItemEntry { data: item.data(), text: item.text() };
            entries.push(entry);
            k = k + 1;
        }
        entries
    }
}

} // verus!
