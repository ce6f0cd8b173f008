use vstd::prelude::*;
use crate::bytes::{u16_at, u32_at, u16_bytes, u32_bytes, zeros, all_zero};
use crate::formats::item_strings::{ItemStrings, ItemStringsModel, opt_strings_view, parse_strings_spec};

verus! {

/// Size in bytes of one item record.
pub const ENTRY_SIZE: usize = 3072;

/// Size in bytes of the data part of a record; the icon part follows it.
pub const DATA_SIZE: usize = 640;

/// Kind of item, decided by its numeric ID.
#[derive(Clone, Copy, Debug, PartialEq, Eq, Structural)]
pub enum ItemCategory {
    Unknown,
    Currency,
    Item,
    Armor,
    Weapon,
    PuppetItem,
    UsableItem,
    Slip,
    Instinct,
    Monipulator,
}

/// The category that owns item ID `id`.
pub open spec fn spec_category(id: u32) -> ItemCategory {
    if id == 0xFFFF {
        ItemCategory::Currency
    } else if id <= 0xFFF {
        ItemCategory::Item
    } else if id <= 0x1FFF {
        ItemCategory::UsableItem
    } else if id <= 0x21FF {
        ItemCategory::PuppetItem
    } else if id <= 0x27FF {
        ItemCategory::Item
    } else if id <= 0x3FFF {
        ItemCategory::Armor
    } else if id <= 0x59FF {
        ItemCategory::Weapon
    } else if id <= 0x6FFF {
        ItemCategory::Armor
    } else if id <= 0x73FF {
        ItemCategory::Slip
    } else if id <= 0x77FF {
        ItemCategory::Instinct
    } else if id <= 0xF1FF {
        ItemCategory::Monipulator
    } else {
        ItemCategory::Item
    }
}

/// The ID ranges of the item categories: items up to 0xFFF, usable items
/// 0x1000 to 0x1FFF, puppet items 0x2000 to 0x21FF, items again to 0x27FF,
/// armor 0x2800 to 0x3FFF, weapons 0x4000 to 0x59FF, armor again 0x5A00 to
/// 0x6FFF, slips 0x7000 to 0x73FF, instincts 0x7400 to 0x77FF, monipulators
/// 0x7800 to 0xF1FF, currency at 0xFFFF and items for the other IDs above.
pub proof fn lemma_category_ranges(id: u32)
    ensures
        spec_category(id) == ItemCategory::Armor <==> (0x2800 <= id <= 0x3FFF || 0x5A00 <= id <= 0x6FFF),
        spec_category(id) == ItemCategory::Weapon <==> 0x4000 <= id <= 0x59FF,
        spec_category(id) == ItemCategory::UsableItem <==> 0x1000 <= id <= 0x1FFF,
        spec_category(id) == ItemCategory::PuppetItem <==> 0x2000 <= id <= 0x21FF,
        spec_category(id) == ItemCategory::Slip <==> 0x7000 <= id <= 0x73FF,
        spec_category(id) == ItemCategory::Instinct <==> 0x7400 <= id <= 0x77FF,
        spec_category(id) == ItemCategory::Monipulator <==> 0x7800 <= id <= 0xF1FF,
        spec_category(id) == ItemCategory::Currency <==> id == 0xFFFF,
        spec_category(id) == ItemCategory::Item <==> (id <= 0xFFF || 0x2200 <= id <= 0x27FF || (0xF200 <= id
            && id != 0xFFFF)),
{
}

impl ItemCategory {
    pub fn from_id(id: u32) -> (category: ItemCategory)
        ensures
            category == spec_category(id),
    {
        if id == 0xFFFF {
            ItemCategory::Currency
        } else if id <= 0xFFF {
            ItemCategory::Item
        } else if id <= 0x1FFF {
            ItemCategory::UsableItem
        } else if id <= 0x21FF {
            ItemCategory::PuppetItem
        } else if id <= 0x27FF {
            ItemCategory::Item
        } else if id <= 0x3FFF {
            ItemCategory::Armor
        } else if id <= 0x59FF {
            ItemCategory::Weapon
        } else if id <= 0x6FFF {
            ItemCategory::Armor
        } else if id <= 0x73FF {
            ItemCategory::Slip
        } else if id <= 0x77FF {
            ItemCategory::Instinct
        } else if id <= 0xF1FF {
            ItemCategory::Monipulator
        } else {
            ItemCategory::Item
        }
    }
}

/// Equipment fields shared by armor and weapons. The two optional fields are
/// present in the modern record layout and absent in the legacy one.
#[derive(Clone, Copy, Debug, PartialEq, Eq)]
pub struct EquipmentData {
    pub level: u16,
    pub slots: u16,
    pub races: u16,
    pub jobs: u32,
    pub superior_level: Option<u16>,
    pub shield_size: Option<u16>,
    pub max_charges: u8,
    pub casting_time: u8,
    pub use_delay: u16,
    pub reuse_delay: u32,
    pub unknown1: u16,
    pub ilevel: u8,
    pub unknown2: u8,
    pub unknown3: u32,
}

#[derive(Clone, Copy, Debug, PartialEq, Eq)]
pub struct WeaponData {
    pub damage: u16,
    pub delay: u16,
    pub dps: u16,
    pub skill_type: u8,
    pub jug_size: u8,
    pub unknown1: Option<u32>,
}

/// Eight elemental charge values, one per nibble of the stored `u32`.
#[derive(Clone, Copy, Debug, PartialEq, Eq)]
pub struct ElementValues {
    pub fire: u8,
    pub ice: u8,
    pub wind: u8,
    pub earth: u8,
    pub lightning: u8,
    pub water: u8,
    pub light: u8,
    pub dark: u8,
}

#[derive(Clone, Copy, Debug, PartialEq, Eq)]
pub struct PuppetItemData {
    pub slot: u16,
    pub element_charge: ElementValues,
    pub unknown1: u32,
}

#[derive(Clone, Copy, Debug, PartialEq, Eq)]
pub struct InstinctData {
    pub unknown1: u32,
    pub unknown2: u32,
    pub unknown3: u16,
    pub instinct_cost: u16,
    pub unknown4: u16,
    pub unknown5: u32,
    pub unknown6: u32,
    pub unknown7: u32,
}

#[derive(Clone, Copy, Debug, PartialEq, Eq)]
pub struct FurnishingData {
    pub element: u16,
    pub storage_slots: u32,
    pub unknown3: Option<u32>,
}

#[derive(Clone, Copy, Debug, PartialEq, Eq)]
pub struct UsableItemData {
    pub activation_time: u16,
    pub unknown1: u32,
    pub unknown2: Option<u32>,
    pub unknown3: Option<u32>,
}

#[derive(Clone, Copy, Debug, PartialEq, Eq)]
pub struct CurrencyData {
    pub unknown1: u16,
}

#[derive(Clone, Copy, Debug, PartialEq, Eq)]
pub struct SlipData {
    pub unknown1: u16,
    pub unknowns: [u32; 17],
}

#[derive(Clone, Copy, Debug, PartialEq, Eq)]
pub struct MonipulatorData {
    pub unknown1: u16,
    pub unknowns: [u32; 24],
}

/// The element values held by the nibbles of `value`.
pub open spec fn spec_element_values(value: u32) -> ElementValues {
    ElementValues {
        fire: (value % 16) as u8,
        ice: ((value / 16) % 16) as u8,
        wind: ((value / 256) % 16) as u8,
        earth: ((value / 4096) % 16) as u8,
        lightning: ((value / 65536) % 16) as u8,
        water: ((value / 1048576) % 16) as u8,
        light: ((value / 16777216) % 16) as u8,
        dark: ((value / 268435456) % 16) as u8,
    }
}

/// The sum that packs element values into a `u32`; the dark value is shifted
/// into the top nibble, so only its low four bits remain.
pub open spec fn element_sum(v: ElementValues) -> int {
    v.fire + 16 * v.ice + 256 * v.wind + 4096 * v.earth + 65536 * v.lightning + 1048576 * v.water
        + 16777216 * v.light + 268435456 * (v.dark % 16)
}

impl ElementValues {
    pub fn from_u32(value: u32) -> (v: ElementValues)
        ensures
            v == spec_element_values(value),
    {
        ElementValues {
            fire: (value % 16) as u8,
            ice: ((value / 16) % 16) as u8,
            wind: ((value / 256) % 16) as u8,
            earth: ((value / 4096) % 16) as u8,
            lightning: ((value / 65536) % 16) as u8,
            water: ((value / 1048576) % 16) as u8,
            light: ((value / 16777216) % 16) as u8,
            dark: ((value / 268435456) % 16) as u8,
        }
    }

    pub fn to_u32(self) -> (value: u32)
        requires
            element_sum(self) <= u32::MAX,
        ensures
            value == element_sum(self),
    {
        self.fire as u32 + 16 * self.ice as u32 + 256 * self.wind as u32 + 4096 * self.earth as u32
            + 65536 * self.lightning as u32 + 1048576 * self.water as u32 + 16777216
            * self.light as u32 + 268435456 * (self.dark % 16) as u32
    }
}

pub proof fn lemma_element_values_round_trip(value: u32)
    ensures
        element_sum(spec_element_values(value)) == value,
{
    assert(value % 16 + 16 * ((value / 16) % 16) + 256 * ((value / 256) % 16) + 4096 * ((value
        / 4096) % 16) + 65536 * ((value / 65536) % 16) + 1048576 * ((value / 1048576) % 16)
        + 16777216 * ((value / 16777216) % 16) + 268435456 * ((value / 268435456) % 16) == value)
        by (bit_vector);
}

} // verus!

verus! {

/// One item record.
#[derive(Debug, PartialEq, Eq)]
pub struct ItemInfo {
    pub id: u32,
    pub strings: Option<ItemStrings>,
    pub flags: u16,
    pub stack_size: u16,
    pub item_type: u16,
    pub resource_id: u16,
    pub valid_targets: u16,
    pub equipment: Option<EquipmentData>,
    pub weapon: Option<WeaponData>,
    pub puppet: Option<PuppetItemData>,
    pub instinct: Option<InstinctData>,
    pub furnishing: Option<FurnishingData>,
    pub usable_item: Option<UsableItemData>,
    pub currency: Option<CurrencyData>,
    pub slip: Option<SlipData>,
    pub monipulator: Option<MonipulatorData>,
    pub icon_bytes: Vec<u8>,
    pub unterminated_icon_padding: bool,
}

impl Default for ItemInfo {
    /// An empty record: every number zero, no text, no payload, no icon.
    fn default() -> (r: ItemInfo)
        ensures
            r.id == 0 && r.strings is None && r.flags == 0 && r.stack_size == 0 && r.item_type == 0
                && r.resource_id == 0 && r.valid_targets == 0,
            r.equipment is None && r.weapon is None && r.puppet is None && r.instinct is None
                && r.furnishing is None && r.usable_item is None && r.currency is None && r.slip is None
                && r.monipulator is None,
            r.icon_bytes@.len() == 0,
            !r.unterminated_icon_padding,
    {
        ItemInfo {
            id: 0,
            strings: None,
            flags: 0,
            stack_size: 0,
            item_type: 0,
            resource_id: 0,
            valid_targets: 0,
            equipment: None,
            weapon: None,
            puppet: None,
            instinct: None,
            furnishing: None,
            usable_item: None,
            currency: None,
            slip: None,
            monipulator: None,
            icon_bytes: Vec::new(),
            unterminated_icon_padding: false,
        }
    }
}

/// The category-specific fields of a record.
pub struct PayloadModel {
    pub equipment: Option<EquipmentData>,
    pub weapon: Option<WeaponData>,
    pub puppet: Option<PuppetItemData>,
    pub instinct: Option<InstinctData>,
    pub furnishing: Option<FurnishingData>,
    pub usable_item: Option<UsableItemData>,
    pub currency: Option<CurrencyData>,
    pub slip: Option<(u16, Seq<u32>)>,
    pub monipulator: Option<(u16, Seq<u32>)>,
}

/// Mathematical model of an item record.
pub struct ItemModel {
    pub id: u32,
    pub strings: Option<ItemStringsModel>,
    pub flags: u16,
    pub stack_size: u16,
    pub item_type: u16,
    pub resource_id: u16,
    pub valid_targets: u16,
    pub payload: PayloadModel,
    pub icon_bytes: Seq<u8>,
    pub unterminated_icon_padding: bool,
}

impl View for ItemInfo {
    type V = ItemModel;

    open spec fn view(&self) -> ItemModel {
        ItemModel {
            id: self.id,
            strings: opt_strings_view(self.strings),
            flags: self.flags,
            stack_size: self.stack_size,
            item_type: self.item_type,
            resource_id: self.resource_id,
            valid_targets: self.valid_targets,
            payload: PayloadModel {
                equipment: self.equipment,
                weapon: self.weapon,
                puppet: self.puppet,
                instinct: self.instinct,
                furnishing: self.furnishing,
                usable_item: self.usable_item,
                currency: self.currency,
                slip: match self.slip {
                    Some(s) => Some((s.unknown1, s.unknowns@)),
                    None => None,
                },
                monipulator: match self.monipulator {
                    Some(m) => Some((m.unknown1, m.unknowns@)),
                    None => None,
                },
            },
            icon_bytes: self.icon_bytes@,
            unterminated_icon_padding: self.unterminated_icon_padding,
        }
    }
}

pub open spec fn empty_payload() -> PayloadModel {
    PayloadModel {
        equipment: None,
        weapon: None,
        puppet: None,
        instinct: None,
        furnishing: None,
        usable_item: None,
        currency: None,
        slip: None,
        monipulator: None,
    }
}

/// `n` consecutive `u32` values starting at `offset`.
pub open spec fn u32s_at(d: Seq<u8>, offset: int, n: nat) -> Seq<u32> {
    Seq::new(n, |i: int| u32_at(d, offset + 4 * i))
}

pub open spec fn opt_u16_at(d: Seq<u8>, offset: int, present: bool) -> Option<u16> {
    if present {
        Some(u16_at(d, offset))
    } else {
        None
    }
}

pub open spec fn opt_u32_at(d: Seq<u8>, offset: int, present: bool) -> Option<u32> {
    if present {
        Some(u32_at(d, offset))
    } else {
        None
    }
}

/// Equipment fields that follow the item's weapon fields (if any) at `p`.
pub open spec fn equipment_at(d: Seq<u8>, modern: bool, p: int) -> EquipmentData {
    EquipmentData {
        level: u16_at(d, 14),
        slots: u16_at(d, 16),
        races: u16_at(d, 18),
        jobs: u32_at(d, 20),
        superior_level: opt_u16_at(d, 24, modern),
        shield_size: opt_u16_at(d, 26, modern),
        max_charges: d[p],
        casting_time: d[p + 1],
        use_delay: u16_at(d, p + 2),
        reuse_delay: u32_at(d, p + 4),
        unknown1: u16_at(d, p + 8),
        ilevel: d[p + 10],
        unknown2: d[p + 11],
        unknown3: u32_at(d, p + 12),
    }
}

pub open spec fn weapon_at(d: Seq<u8>, modern: bool, p: int) -> WeaponData {
    WeaponData {
        damage: u16_at(d, p),
        delay: u16_at(d, p + 2),
        dps: u16_at(d, p + 4),
        skill_type: d[p + 6],
        jug_size: d[p + 7],
        unknown1: opt_u32_at(d, p + 8, modern),
    }
}

/// Reads the category-specific fields that follow the 14-byte record
/// header: the fields and the offset after them.
#[verifier::opaque]
pub open spec fn payload_spec(d: Seq<u8>, category: ItemCategory, modern: bool) -> (
    PayloadModel,
    int,
) {
    let p = if modern { 28int } else { 24int };
    match category {
        ItemCategory::Armor => (
            PayloadModel { equipment: Some(equipment_at(d, modern, p)), ..empty_payload() },
            p + 16,
        ),
        ItemCategory::Weapon => {
            let q = if modern { p + 12 } else { p + 8 };
            (
                PayloadModel {
                    equipment: Some(equipment_at(d, modern, q)),
                    weapon: Some(weapon_at(d, modern, p)),
                    ..empty_payload()
                },
                q + 16,
            )
        },
        ItemCategory::PuppetItem => (
            PayloadModel {
                puppet: Some(
                    PuppetItemData {
                        slot: u16_at(d, 14),
                        element_charge: spec_element_values(u32_at(d, 16)),
                        unknown1: u32_at(d, 20),
                    },
                ),
                ..empty_payload()
            },
            24,
        ),
        ItemCategory::Instinct => (
            PayloadModel {
                instinct: Some(
                    InstinctData {
                        unknown1: u32_at(d, 14),
                        unknown2: u32_at(d, 18),
                        unknown3: u16_at(d, 22),
                        instinct_cost: u16_at(d, 24),
                        unknown4: u16_at(d, 26),
                        unknown5: u32_at(d, 28),
                        unknown6: u32_at(d, 32),
                        unknown7: u32_at(d, 36),
                    },
                ),
                ..empty_payload()
            },
            40,
        ),
        ItemCategory::Item => (
            PayloadModel {
                furnishing: Some(
                    FurnishingData {
                        element: u16_at(d, 14),
                        storage_slots: u32_at(d, 16),
                        unknown3: opt_u32_at(d, 20, modern),
                    },
                ),
                ..empty_payload()
            },
            if modern { 24int } else { 20int },
        ),
        ItemCategory::UsableItem => (
            PayloadModel {
                usable_item: Some(
                    UsableItemData {
                        activation_time: u16_at(d, 14),
                        unknown1: u32_at(d, 16),
                        unknown2: opt_u32_at(d, 20, modern),
                        unknown3: opt_u32_at(d, 24, modern),
                    },
                ),
                ..empty_payload()
            },
            if modern { 28int } else { 20int },
        ),
        ItemCategory::Currency => (
            PayloadModel {
                currency: Some(CurrencyData { unknown1: u16_at(d, 14) }),
                ..empty_payload()
            },
            16,
        ),
        ItemCategory::Slip => (
            PayloadModel {
                slip: Some((u16_at(d, 14), u32s_at(d, 16, 17))),
                ..empty_payload()
            },
            84,
        ),
        ItemCategory::Monipulator => (
            PayloadModel {
                monipulator: Some((u16_at(d, 14), u32s_at(d, 16, 24))),
                ..empty_payload()
            },
            112,
        ),
        ItemCategory::Unknown => (empty_payload(), 14),
    }
}

/// Offsets of the string section in the legacy and the modern layout, for
/// the categories whose layout changed.
pub open spec fn layout_offsets(category: ItemCategory) -> Option<(int, int)> {
    match category {
        ItemCategory::Item => Some((0x14int, 0x18int)),
        ItemCategory::UsableItem => Some((0x14int, 0x1Cint)),
        ItemCategory::Armor => Some((0x28int, 0x2Cint)),
        ItemCategory::Weapon => Some((0x30int, 0x38int)),
        _ => None,
    }
}

/// The zero words that must follow the string section of record data.
pub open spec fn zero_tail(d: Seq<u8>, end: int) -> bool {
    all_zero(d, end, end + 4 * ((d.len() - end) / 4))
}

/// A well-formed string section, followed by zero words, starts at `offset`.
pub open spec fn strings_fit(d: Seq<u8>, offset: int) -> bool {
    match parse_strings_spec(d, offset) {
        Some((_, end)) => zero_tail(d, end),
        None => false,
    }
}

/// Whether the record data uses the modern layout; `None` when neither layout
/// fits.
pub open spec fn detect_modern_spec(d: Seq<u8>, category: ItemCategory) -> Option<bool> {
    match layout_offsets(category) {
        None => Some(true),
        Some((legacy, modern)) => {
            if strings_fit(d, modern) {
                Some(true)
            } else if strings_fit(d, legacy) {
                Some(false)
            } else {
                None
            }
        },
    }
}

/// The icon part of a decoded record is well formed.
pub open spec fn icon_ok(e: Seq<u8>) -> bool {
    let size = u32_at(e, 640);
    &&& 644 + size <= 3072
    &&& (size == 0 && all_zero(e, 644, 3072)) || (644 + size + 1 <= 3072 && all_zero(
        e,
        644 + size,
        3071,
    ) && e[3071] == 0xFF)
}

/// Reads a decoded record of `ENTRY_SIZE` bytes.
#[verifier::opaque]
pub open spec fn parse_entry_spec(e: Seq<u8>) -> Option<ItemModel> {
    let size = u32_at(e, 640);
    let d = e.subrange(0, 640);
    let id = u32_at(d, 0);
    let category = spec_category(id);
    if !icon_ok(e) {
        None
    } else {
        match detect_modern_spec(d, category) {
            None => None,
            Some(modern) => {
                let (payload, offset) = payload_spec(d, category, modern);
                match parse_strings_spec(d, offset) {
                    None => None,
                    Some((strings, end)) => {
                        if !zero_tail(d, end) {
                            None
                        } else {
                            Some(
                                ItemModel {
                                    id,
                                    strings,
                                    flags: u16_at(d, 4),
                                    stack_size: u16_at(d, 6),
                                    item_type: u16_at(d, 8),
                                    resource_id: u16_at(d, 10),
                                    valid_targets: u16_at(d, 12),
                                    payload,
                                    icon_bytes: e.subrange(644, 644 + size),
                                    unterminated_icon_padding: size == 0 && all_zero(e, 644, 3072),
                                },
                            )
                        }
                    },
                }
            },
        }
    }
}

} // verus!

verus! {

struct Payload {
    equipment: Option<EquipmentData>,
    weapon: Option<WeaponData>,
    puppet: Option<PuppetItemData>,
    instinct: Option<InstinctData>,
    furnishing: Option<FurnishingData>,
    usable_item: Option<UsableItemData>,
    currency: Option<CurrencyData>,
    slip: Option<SlipData>,
    monipulator: Option<MonipulatorData>,
}

impl View for Payload {
    type V = PayloadModel;

    closed spec fn view(&self) -> PayloadModel {
        PayloadModel {
            equipment: self.equipment,
            weapon: self.weapon,
            puppet: self.puppet,
            instinct: self.instinct,
            furnishing: self.furnishing,
            usable_item: self.usable_item,
            currency: self.currency,
            slip: match self.slip {
                Some(s) => Some((s.unknown1, s.unknowns@)),
                None => None,
            },
            monipulator: match self.monipulator {
                Some(m) => Some((m.unknown1, m.unknowns@)),
                None => None,
            },
        }
    }
}

fn empty_payload_exec() -> (p: Payload)
    ensures
        p@ == empty_payload(),
{
    Payload {
        equipment: None,
        weapon: None,
        puppet: None,
        instinct: None,
        furnishing: None,
        usable_item: None,
        currency: None,
        slip: None,
        monipulator: None,
    }
}

fn opt_u16_exec(d: &[u8], offset: usize, present: bool) -> (r: Option<u16>)
    requires
        offset + 2 <= d@.len(),
    ensures
        r == opt_u16_at(d@, offset as int, present),
{
    if present {
        Some(crate::bytes::get_u16(d, offset))
    } else {
        None
    }
}

fn opt_u32_exec(d: &[u8], offset: usize, present: bool) -> (r: Option<u32>)
    requires
        offset + 4 <= d@.len(),
    ensures
        r == opt_u32_at(d@, offset as int, present),
{
    if present {
        Some(crate::bytes::get_u32(d, offset))
    } else {
        None
    }
}

fn equipment_exec(d: &[u8], modern: bool, p: usize) -> (e: EquipmentData)
    requires
        d@.len() == DATA_SIZE,
        p + 16 <= DATA_SIZE,
    ensures
        e == equipment_at(d@, modern, p as int),
{
    EquipmentData {
        level: crate::bytes::get_u16(d, 14),
        slots: crate::bytes::get_u16(d, 16),
        races: crate::bytes::get_u16(d, 18),
        jobs: crate::bytes::get_u32(d, 20),
        superior_level: opt_u16_exec(d, 24, modern),
        shield_size: opt_u16_exec(d, 26, modern),
        max_charges: d[p],
        casting_time: d[p + 1],
        use_delay: crate::bytes::get_u16(d, p + 2),
        reuse_delay: crate::bytes::get_u32(d, p + 4),
        unknown1: crate::bytes::get_u16(d, p + 8),
        ilevel: d[p + 10],
        unknown2: d[p + 11],
        unknown3: crate::bytes::get_u32(d, p + 12),
    }
}

fn weapon_exec(d: &[u8], modern: bool, p: usize) -> (w: WeaponData)
    requires
        d@.len() == DATA_SIZE,
        p + 12 <= DATA_SIZE,
    ensures
        w == weapon_at(d@, modern, p as int),
{
    WeaponData {
        damage: crate::bytes::get_u16(d, p),
        delay: crate::bytes::get_u16(d, p + 2),
        dps: crate::bytes::get_u16(d, p + 4),
        skill_type: d[p + 6],
        jug_size: d[p + 7],
        unknown1: opt_u32_exec(d, p + 8, modern),
    }
}

fn u32_array_17(d: &[u8], offset: usize) -> (a: [u32; 17])
    requires
        offset + 68 <= d@.len(),
    ensures
        a@ == u32s_at(d@, offset as int, 17),
{
    let mut a = [0u32; 17];
    let mut i: usize = 0;
    while i < 17
        invariant
            offset + 68 <= d.len(),
            i <= 17,
            a@.len() == 17,
            forall|j: int| 0 <= j < i ==> a@[j] == u32_at(d@, offset + 4 * j),
        decreases 17 - i,
    {
        a[i] = crate::bytes::get_u32(d, offset + 4 * i);
        i = i + 1;
    }
    assert(a@ =~= u32s_at(d@, offset as int, 17));
    a
}

fn u32_array_24(d: &[u8], offset: usize) -> (a: [u32; 24])
    requires
        offset + 96 <= d@.len(),
    ensures
        a@ == u32s_at(d@, offset as int, 24),
{
    let mut a = [0u32; 24];
    let mut i: usize = 0;
    while i < 24
        invariant
            offset + 96 <= d.len(),
            i <= 24,
            a@.len() == 24,
            forall|j: int| 0 <= j < i ==> a@[j] == u32_at(d@, offset + 4 * j),
        decreases 24 - i,
    {
        a[i] = crate::bytes::get_u32(d, offset + 4 * i);
        i = i + 1;
    }
    assert(a@ =~= u32s_at(d@, offset as int, 24));
    a
}

#[verifier::spinoff_prover]
fn parse_payload(d: &[u8], category: ItemCategory, modern: bool) -> (r: (Payload, usize))
    requires
        d@.len() == DATA_SIZE,
    ensures
        (r.0@, r.1 as int) == payload_spec(d@, category, modern),
{
    reveal(payload_spec);
    let p: usize = if modern {
        28
    } else {
        24
    };
    let mut payload = empty_payload_exec();
    let end: usize;
    match category {
        ItemCategory::Armor => {
            payload.equipment = Some(equipment_exec(d, modern, p));
            end = p + 16;
        },
        ItemCategory::Weapon => {
            let q = if modern {
                p + 12
            } else {
                p + 8
            };
            payload.weapon = Some(weapon_exec(d, modern, p));
            payload.equipment = Some(equipment_exec(d, modern, q));
            end = q + 16;
        },
        ItemCategory::PuppetItem => {
            payload.puppet = Some(
                PuppetItemData {
                    slot: crate::bytes::get_u16(d, 14),
                    element_charge: ElementValues::from_u32(crate::bytes::get_u32(d, 16)),
                    unknown1: crate::bytes::get_u32(d, 20),
                },
            );
            end = 24;
        },
        ItemCategory::Instinct => {
            payload.instinct = Some(
                InstinctData {
                    unknown1: crate::bytes::get_u32(d, 14),
                    unknown2: crate::bytes::get_u32(d, 18),
                    unknown3: crate::bytes::get_u16(d, 22),
                    instinct_cost: crate::bytes::get_u16(d, 24),
                    unknown4: crate::bytes::get_u16(d, 26),
                    unknown5: crate::bytes::get_u32(d, 28),
                    unknown6: crate::bytes::get_u32(d, 32),
                    unknown7: crate::bytes::get_u32(d, 36),
                },
            );
            end = 40;
        },
        ItemCategory::Item => {
            payload.furnishing = Some(
                FurnishingData {
                    element: crate::bytes::get_u16(d, 14),
                    storage_slots: crate::bytes::get_u32(d, 16),
                    unknown3: opt_u32_exec(d, 20, modern),
                },
            );
            end = if modern {
                24
            } else {
                20
            };
        },
        ItemCategory::UsableItem => {
            payload.usable_item = Some(
                UsableItemData {
                    activation_time: crate::bytes::get_u16(d, 14),
                    unknown1: crate::bytes::get_u32(d, 16),
                    unknown2: opt_u32_exec(d, 20, modern),
                    unknown3: opt_u32_exec(d, 24, modern),
                },
            );
            end = if modern {
                28
            } else {
                20
            };
        },
        ItemCategory::Currency => {
            payload.currency = Some(CurrencyData { unknown1: crate::bytes::get_u16(d, 14) });
            end = 16;
        },
        ItemCategory::Slip => {
            payload.slip = Some(
                SlipData { unknown1: crate::bytes::get_u16(d, 14), unknowns: u32_array_17(d, 16) },
            );
            end = 84;
        },
        ItemCategory::Monipulator => {
            payload.monipulator = Some(
                MonipulatorData {
                    unknown1: crate::bytes::get_u16(d, 14),
                    unknowns: u32_array_24(d, 16),
                },
            );
            end = 112;
        },
        ItemCategory::Unknown => {
            end = 14;
        },
    }
    (payload, end)
}

fn zero_tail_exec(d: &[u8], end: usize) -> (r: bool)
    requires
        end <= d@.len(),
    ensures
        r == zero_tail(d@, end as int),
{
    crate::bytes::check_zero(d, end, end + 4 * ((d.len() - end) / 4))
}

fn strings_fit_exec(d: &[u8], offset: usize) -> (r: bool)
    requires
        d@.len() == DATA_SIZE,
    ensures
        r == strings_fit(d@, offset as int),
{
    match crate::formats::item_strings::parse_strings(d, offset) {
        Some((_, end)) => {
            proof {
                crate::formats::item_strings::lemma_strings_section_round_trip(d@, offset as int);
            }
            zero_tail_exec(d, end)
        },
        None => false,
    }
}

fn detect_modern(d: &[u8], category: ItemCategory) -> (r: Option<bool>)
    requires
        d@.len() == DATA_SIZE,
    ensures
        r == detect_modern_spec(d@, category),
{
    let offsets: Option<(usize, usize)> = match category {
        ItemCategory::Item => Some((0x14, 0x18)),
        ItemCategory::UsableItem => Some((0x14, 0x1C)),
        ItemCategory::Armor => Some((0x28, 0x2C)),
        ItemCategory::Weapon => Some((0x30, 0x38)),
        _ => None,
    };
    match offsets {
        None => Some(true),
        Some((legacy, modern)) => {
            if strings_fit_exec(d, modern) {
                Some(true)
            } else if strings_fit_exec(d, legacy) {
                Some(false)
            } else {
                None
            }
        },
    }
}

fn icon_ok_exec(e: &[u8]) -> (r: bool)
    requires
        e@.len() == ENTRY_SIZE,
    ensures
        r == icon_ok(e@),
{
    let size = crate::bytes::get_u32(e, 640);
    if size as usize > 3072 - 644 {
        return false;
    }
    let size = size as usize;
    if size == 0 && crate::bytes::check_zero(e, 644, 3072) {
        return true;
    }
    644 + size + 1 <= 3072 && crate::bytes::check_zero(e, 644 + size, 3071) && e[3071] == 0xFF
}

} // verus!

verus! {

/// Reads a decoded record.
#[verifier::spinoff_prover]
fn parse_entry(e: &[u8]) -> (r: Result<ItemInfo, crate::error::DatError>)
    requires
        e@.len() == ENTRY_SIZE,
    ensures
        match r {
            Ok(item) => parse_entry_spec(e@) == Some(item@),
            Err(err) => parse_entry_spec(e@) is None && err == crate::error::DatError::Malformed,
        },
{
    reveal(parse_entry_spec);
    if !icon_ok_exec(e) {
        return Err(crate::error::DatError::Malformed);
    }
    let size = crate::bytes::get_u32(e, 640) as usize;
    let icon_bytes = crate::bytes::copy_range(e, 644, 644 + size);
    let unterminated = size == 0 && crate::bytes::check_zero(e, 644, 3072);
    let d = crate::bytes::copy_range(e, 0, 640);
    assert(d@ == e@.subrange(0, 640));
    let id = crate::bytes::get_u32(&d, 0);
    let category = ItemCategory::from_id(id);
    let modern = match detect_modern(&d, category) {
        Some(modern) => modern,
        None => {
            return Err(crate::error::DatError::Malformed);
        },
    };
    let (payload, offset) = parse_payload(&d, category, modern);
    let (strings, end) = match crate::formats::item_strings::parse_strings(&d, offset) {
        Some(r) => r,
        None => {
            return Err(crate::error::DatError::Malformed);
        },
    };
    proof {
        crate::formats::item_strings::lemma_strings_section_round_trip(d@, offset as int);
    }
    if !zero_tail_exec(&d, end) {
        return Err(crate::error::DatError::Malformed);
    }
    let item = ItemInfo {
        id,
        strings,
        flags: crate::bytes::get_u16(&d, 4),
        stack_size: crate::bytes::get_u16(&d, 6),
        item_type: crate::bytes::get_u16(&d, 8),
        resource_id: crate::bytes::get_u16(&d, 10),
        valid_targets: crate::bytes::get_u16(&d, 12),
        equipment: payload.equipment,
        weapon: payload.weapon,
        puppet: payload.puppet,
        instinct: payload.instinct,
        furnishing: payload.furnishing,
        usable_item: payload.usable_item,
        currency: payload.currency,
        slip: payload.slip,
        monipulator: payload.monipulator,
        icon_bytes,
        unterminated_icon_padding: unterminated,
    };
    assert(item@.payload == payload@);
    Ok(item)
}

impl ItemInfo {
    /// Reads the record stored at `start` of `stored`: its `ENTRY_SIZE` bytes
    /// are rotated before they are read.
    pub fn parse(stored: &[u8], start: usize) -> (r: Result<ItemInfo, crate::error::DatError>)
        ensures
            start + ENTRY_SIZE <= stored@.len() ==> match r {
                Ok(item) => parse_entry_spec(
                    crate::bytes::rotate_seq(
                        stored@.subrange(start as int, start + ENTRY_SIZE),
                        5,
                    ),
                ) == Some(item@),
                Err(err) => parse_entry_spec(
                    crate::bytes::rotate_seq(
                        stored@.subrange(start as int, start + ENTRY_SIZE),
                        5,
                    ),
                ) is None && err == crate::error::DatError::Malformed,
            },
            start + ENTRY_SIZE > stored@.len() ==> r == Err::<ItemInfo, _>(
                crate::error::DatError::Malformed,
            ),
    {
        if start > stored.len() || stored.len() - start < ENTRY_SIZE {
            return Err(crate::error::DatError::Malformed);
        }
        let mut e = crate::bytes::copy_range(stored, start, start + ENTRY_SIZE);
        crate::bytes::rotate_all(&mut e, 5);
        parse_entry(&e)
    }
}

} // verus!

verus! {

pub open spec fn opt_u16_bytes(o: Option<u16>) -> Seq<u8> {
    match o {
        Some(v) => u16_bytes(v),
        None => seq![],
    }
}

pub open spec fn opt_u32_bytes(o: Option<u32>) -> Seq<u8> {
    match o {
        Some(v) => u32_bytes(v),
        None => seq![],
    }
}

/// Consecutive little-endian `u32` values.
pub open spec fn u32s_bytes(s: Seq<u32>) -> Seq<u8>
    decreases s.len(),
{
    if s.len() == 0 {
        seq![]
    } else {
        u32s_bytes(s.drop_last()) + u32_bytes(s.last())
    }
}

/// Whether equipment uses the modern layout: both optional fields are set,
/// or neither (legacy); `None` when only one is.
pub open spec fn equipment_modern(e: EquipmentData) -> Option<bool> {
    match (e.superior_level, e.shield_size) {
        (Some(_), Some(_)) => Some(true),
        (None, None) => Some(false),
        _ => None,
    }
}

pub open spec fn weapon_bytes(w: WeaponData) -> Seq<u8> {
    u16_bytes(w.damage) + u16_bytes(w.delay) + u16_bytes(w.dps) + seq![w.skill_type, w.jug_size]
        + opt_u32_bytes(w.unknown1)
}

/// Equipment fields, with the weapon fields between the layout fields and
/// the rest; `None` when the fields mix the two layouts.
pub open spec fn equipment_bytes(e: EquipmentData, weapon: Option<WeaponData>) -> Option<Seq<u8>> {
    match equipment_modern(e) {
        None => None,
        Some(modern) => {
            if weapon is Some && (weapon->0.unknown1 is Some) != modern {
                None
            } else {
                Some(
                    u16_bytes(e.level) + u16_bytes(e.slots) + u16_bytes(e.races) + u32_bytes(e.jobs)
                        + opt_u16_bytes(e.superior_level) + opt_u16_bytes(e.shield_size) + (
                    match weapon {
                        Some(w) => weapon_bytes(w),
                        None => seq![],
                    }) + seq![e.max_charges, e.casting_time] + u16_bytes(e.use_delay)
                        + u32_bytes(e.reuse_delay) + u16_bytes(e.unknown1) + seq![
                        e.ilevel,
                        e.unknown2,
                    ] + u32_bytes(e.unknown3),
                )
            }
        },
    }
}

/// The category-specific fields as written: the first data kind that is set
/// decides, in the order equipment, puppet, instinct, furnishing, usable
/// item, currency, slip, monipulator.
#[verifier::opaque]
pub open spec fn payload_bytes(p: PayloadModel) -> Option<Seq<u8>> {
    if p.equipment is Some {
        equipment_bytes(p.equipment->0, p.weapon)
    } else if p.puppet is Some {
        let pd = p.puppet->0;
        Some(
            u16_bytes(pd.slot) + u32_bytes(element_sum(pd.element_charge) as u32) + u32_bytes(
                pd.unknown1,
            ),
        )
    } else if p.instinct is Some {
        let i = p.instinct->0;
        Some(
            u32_bytes(i.unknown1) + u32_bytes(i.unknown2) + u16_bytes(i.unknown3) + u16_bytes(
                i.instinct_cost,
            ) + u16_bytes(i.unknown4) + u32_bytes(i.unknown5) + u32_bytes(i.unknown6) + u32_bytes(
                i.unknown7,
            ),
        )
    } else if p.furnishing is Some {
        let f = p.furnishing->0;
        Some(u16_bytes(f.element) + u32_bytes(f.storage_slots) + opt_u32_bytes(f.unknown3))
    } else if p.usable_item is Some {
        let u = p.usable_item->0;
        if (u.unknown2 is Some) != (u.unknown3 is Some) {
            None
        } else {
            Some(
                u16_bytes(u.activation_time) + u32_bytes(u.unknown1) + opt_u32_bytes(u.unknown2)
                    + opt_u32_bytes(u.unknown3),
            )
        }
    } else if p.currency is Some {
        Some(u16_bytes(p.currency->0.unknown1))
    } else if p.slip is Some {
        let (unknown1, unknowns) = p.slip->0;
        Some(u16_bytes(unknown1) + u32s_bytes(unknowns))
    } else if p.monipulator is Some {
        let (unknown1, unknowns) = p.monipulator->0;
        Some(u16_bytes(unknown1) + u32s_bytes(unknowns))
    } else {
        Some(seq![])
    }
}

/// The record can be handed to the writer: the element charges of a puppet
/// item pack into a `u32` without overflow.
pub open spec fn writable(m: ItemModel) -> bool {
    m.payload.equipment is None && m.payload.puppet is Some ==> element_sum(
        m.payload.puppet->0.element_charge,
    ) <= u32::MAX
}

/// The item's numeric data can be exported: the element charges of a puppet
/// item pack into a `u32` without overflow.
pub open spec fn exportable(m: ItemModel) -> bool {
    m.payload.puppet is Some ==> element_sum(m.payload.puppet->0.element_charge) <= u32::MAX
}

pub open spec fn header_bytes(m: ItemModel) -> Seq<u8> {
    u32_bytes(m.id) + u16_bytes(m.flags) + u16_bytes(m.stack_size) + u16_bytes(m.item_type)
        + u16_bytes(m.resource_id) + u16_bytes(m.valid_targets)
}

/// The data part of a record before its zero fill.
pub open spec fn data_bytes(m: ItemModel) -> Option<Seq<u8>> {
    match payload_bytes(m.payload) {
        None => None,
        Some(pb) => Some(
            header_bytes(m) + pb + crate::formats::item_strings::section_bytes(
                crate::formats::item_strings::strings_contents(m.strings),
            ),
        ),
    }
}

/// Number of bytes after the icon fill: the 0xFF terminator, or none.
pub open spec fn icon_tail(m: ItemModel) -> int {
    if m.unterminated_icon_padding {
        0
    } else {
        1
    }
}

/// The icon part of a record as written.
pub open spec fn icon_region(m: ItemModel) -> Seq<u8> {
    u32_bytes(m.icon_bytes.len() as u32) + m.icon_bytes + zeros(
        (2432 - 4 - m.icon_bytes.len() - icon_tail(m)) as nat,
    ) + (if m.unterminated_icon_padding {
        seq![]
    } else {
        seq![0xFFu8]
    })
}

/// The decoded bytes of a record, or `None` when it cannot be written: its
/// fields mix layouts, its data does not fit the data part, its icon does not
/// fit the icon part, or an icon is set on a record without an icon
/// terminator.
pub open spec fn entry_bytes(m: ItemModel) -> Option<Seq<u8>> {
    match data_bytes(m) {
        None => None,
        Some(data) => {
            if data.len() > 640 {
                None
            } else if m.unterminated_icon_padding && m.icon_bytes.len() > 0 {
                None
            } else if 4 + m.icon_bytes.len() + icon_tail(m) > 2432 {
                None
            } else {
                Some(data + zeros((640 - data.len()) as nat) + icon_region(m))
            }
        },
    }
}

} // verus!

verus! {

fn push_opt_u16(out: &mut Vec<u8>, o: Option<u16>)
    ensures
        final(out)@ == old(out)@ + opt_u16_bytes(o),
{
    match o {
        Some(v) => crate::bytes::push_u16(out, v),
        None => {
            assert(old(out)@ + opt_u16_bytes(o) =~= old(out)@);
        },
    }
}

fn push_opt_u32(out: &mut Vec<u8>, o: Option<u32>)
    ensures
        final(out)@ == old(out)@ + opt_u32_bytes(o),
{
    match o {
        Some(v) => crate::bytes::push_u32(out, v),
        None => {
            assert(old(out)@ + opt_u32_bytes(o) =~= old(out)@);
        },
    }
}

fn push_u8(out: &mut Vec<u8>, v: u8)
    ensures
        final(out)@ == old(out)@ + seq![v],
{
    out.push(v);
    assert(final(out)@ =~= old(out)@ + seq![v]);
}

fn push_u32s(out: &mut Vec<u8>, values: &[u32])
    ensures
        final(out)@ == old(out)@ + u32s_bytes(values@),
{
    let ghost start = out@;
    let mut i: usize = 0;
    while i < values.len()
        invariant
            i <= values@.len(),
            out@ == start + u32s_bytes(values@.subrange(0, i as int)),
        decreases values@.len() - i,
    {
        proof {
            let pre = values@.subrange(0, i as int);
            let next = values@.subrange(0, i + 1);
            assert(next.drop_last() =~= pre);
            assert(next.last() == values@[i as int]);
        }
        crate::bytes::push_u32(out, values[i]);
        i = i + 1;
        assert(out@ =~= start + u32s_bytes(values@.subrange(0, i as int)));
    }
    assert(values@.subrange(0, values@.len() as int) =~= values@);
}

#[verifier::spinoff_prover]
fn push_equipment(out: &mut Vec<u8>, e: &EquipmentData, weapon: &Option<WeaponData>) -> (ok: bool)
    ensures
        ok == (equipment_bytes(*e, *weapon) is Some),
        ok ==> final(out)@ == old(out)@ + equipment_bytes(*e, *weapon)->0,
{
    let modern = match (e.superior_level, e.shield_size) {
        (Some(_), Some(_)) => true,
        (None, None) => false,
        _ => {
            return false;
        },
    };
    match weapon {
        Some(w) => {
            if w.unknown1.is_some() != modern {
                return false;
            }
        },
        None => {},
    }
    let ghost start = out@;
    crate::bytes::push_u16(out, e.level);
    crate::bytes::push_u16(out, e.slots);
    crate::bytes::push_u16(out, e.races);
    crate::bytes::push_u32(out, e.jobs);
    push_opt_u16(out, e.superior_level);
    push_opt_u16(out, e.shield_size);
    let ghost before_weapon = out@;
    match weapon {
        Some(w) => {
            crate::bytes::push_u16(out, w.damage);
            crate::bytes::push_u16(out, w.delay);
            crate::bytes::push_u16(out, w.dps);
            push_u8(out, w.skill_type);
            push_u8(out, w.jug_size);
            push_opt_u32(out, w.unknown1);
            assert(out@ =~= before_weapon + weapon_bytes(*w));
        },
        None => {},
    }
    push_u8(out, e.max_charges);
    push_u8(out, e.casting_time);
    crate::bytes::push_u16(out, e.use_delay);
    crate::bytes::push_u32(out, e.reuse_delay);
    crate::bytes::push_u16(out, e.unknown1);
    push_u8(out, e.ilevel);
    push_u8(out, e.unknown2);
    crate::bytes::push_u32(out, e.unknown3);
    assert(out@ =~= start + equipment_bytes(*e, *weapon)->0);
    true
}

#[verifier::spinoff_prover]
fn push_payload(out: &mut Vec<u8>, item: &ItemInfo) -> (ok: bool)
    requires
        writable(item@),
    ensures
        ok == (payload_bytes(item@.payload) is Some),
        ok ==> final(out)@ == old(out)@ + payload_bytes(item@.payload)->0,
{
    reveal(payload_bytes);
    let ghost start = out@;
    if let Some(e) = &item.equipment {
        return push_equipment(out, e, &item.weapon);
    } else if let Some(p) = &item.puppet {
        crate::bytes::push_u16(out, p.slot);
        let packed = p.element_charge.to_u32();
        crate::bytes::push_u32(out, packed);
        crate::bytes::push_u32(out, p.unknown1);
    } else if let Some(i) = &item.instinct {
        crate::bytes::push_u32(out, i.unknown1);
        crate::bytes::push_u32(out, i.unknown2);
        crate::bytes::push_u16(out, i.unknown3);
        crate::bytes::push_u16(out, i.instinct_cost);
        crate::bytes::push_u16(out, i.unknown4);
        crate::bytes::push_u32(out, i.unknown5);
        crate::bytes::push_u32(out, i.unknown6);
        crate::bytes::push_u32(out, i.unknown7);
    } else if let Some(f) = &item.furnishing {
        crate::bytes::push_u16(out, f.element);
        crate::bytes::push_u32(out, f.storage_slots);
        push_opt_u32(out, f.unknown3);
    } else if let Some(u) = &item.usable_item {
        if u.unknown2.is_some() != u.unknown3.is_some() {
            return false;
        }
        crate::bytes::push_u16(out, u.activation_time);
        crate::bytes::push_u32(out, u.unknown1);
        push_opt_u32(out, u.unknown2);
        push_opt_u32(out, u.unknown3);
    } else if let Some(c) = &item.currency {
        crate::bytes::push_u16(out, c.unknown1);
    } else if let Some(s) = &item.slip {
        crate::bytes::push_u16(out, s.unknown1);
        push_u32s(out, s.unknowns.as_slice());
    } else if let Some(m) = &item.monipulator {
        crate::bytes::push_u16(out, m.unknown1);
        push_u32s(out, m.unknowns.as_slice());
    }
    assert(out@ =~= start + payload_bytes(item@.payload)->0);
    true
}

#[verifier::spinoff_prover]
fn write_entry(item: &ItemInfo) -> (r: Result<Vec<u8>, crate::error::DatError>)
    requires
        writable(item@),
    ensures
        match r {
            Ok(e) => entry_bytes(item@) == Some(e@),
            Err(err) => entry_bytes(item@) is None && err == crate::error::DatError::Unwritable,
        },
{
    let mut data: Vec<u8> = Vec::new();
    crate::bytes::push_u32(&mut data, item.id);
    crate::bytes::push_u16(&mut data, item.flags);
    crate::bytes::push_u16(&mut data, item.stack_size);
    crate::bytes::push_u16(&mut data, item.item_type);
    crate::bytes::push_u16(&mut data, item.resource_id);
    crate::bytes::push_u16(&mut data, item.valid_targets);
    assert(data@ =~= header_bytes(item@));
    if !push_payload(&mut data, item) {
        return Err(crate::error::DatError::Unwritable);
    }
    let contents = crate::formats::item_strings::strings_to_contents(&item.strings);
    let section_len = match crate::formats::item_strings::section_len(&contents, 640) {
        Some(n) => n,
        None => {
            return Err(crate::error::DatError::Unwritable);
        },
    };
    if data.len() > 640 - section_len {
        return Err(crate::error::DatError::Unwritable);
    }
    crate::formats::item_strings::write_section(&mut data, &contents);
    assert(Some(data@) == data_bytes(item@));
    let icon_len = item.icon_bytes.len();
    if item.unterminated_icon_padding && icon_len > 0 {
        return Err(crate::error::DatError::Unwritable);
    }
    let tail: usize = if item.unterminated_icon_padding {
        0
    } else {
        1
    };
    if icon_len > 2432 - 4 - tail {
        return Err(crate::error::DatError::Unwritable);
    }
    let fill = 640 - data.len();
    crate::bytes::push_zeros(&mut data, fill);
    let ghost before_icon = data@;
    crate::bytes::push_u32(&mut data, icon_len as u32);
    crate::bytes::push_bytes(&mut data, item.icon_bytes.as_slice());
    crate::bytes::push_zeros(&mut data, 2432 - 4 - icon_len - tail);
    if !item.unterminated_icon_padding {
        push_u8(&mut data, 0xFF);
    }
    assert(data@ =~= before_icon + icon_region(item@));
    Ok(data)
}

} // verus!

verus! {

use crate::bytes::lemma_u16_bytes_of_read as rd16;
use crate::bytes::lemma_u32_bytes_of_read as rd32;

proof fn lemma_u32s_read(d: Seq<u8>, offset: int, n: nat)
    requires
        0 <= offset,
        offset + 4 * n <= d.len(),
    ensures
        u32s_bytes(u32s_at(d, offset, n)) == d.subrange(offset, offset + 4 * n),
    decreases n,
{
    if n == 0 {
        assert(d.subrange(offset, offset) =~= seq![]);
    } else {
        lemma_u32s_read(d, offset, (n - 1) as nat);
        assert(u32s_at(d, offset, n).drop_last() =~= u32s_at(d, offset, (n - 1) as nat));
        rd32(d, offset + 4 * (n - 1));
        assert(d.subrange(offset, offset + 4 * n) =~= d.subrange(offset, offset + 4 * (n - 1))
            + d.subrange(offset + 4 * (n - 1), offset + 4 * n));
    }
}

proof fn lemma_opt_u16_read(d: Seq<u8>, offset: int, present: bool)
    requires
        0 <= offset,
        offset + 2 <= d.len(),
    ensures
        opt_u16_bytes(opt_u16_at(d, offset, present)) == d.subrange(
            offset,
            offset + if present {
                2int
            } else {
                0int
            },
        ),
{
    if present {
        rd16(d, offset);
    } else {
        assert(d.subrange(offset, offset) =~= seq![]);
    }
}

proof fn lemma_opt_u32_read(d: Seq<u8>, offset: int, present: bool)
    requires
        0 <= offset,
        offset + 4 <= d.len(),
    ensures
        opt_u32_bytes(opt_u32_at(d, offset, present)) == d.subrange(
            offset,
            offset + if present {
                4int
            } else {
                0int
            },
        ),
{
    if present {
        rd32(d, offset);
    } else {
        assert(d.subrange(offset, offset) =~= seq![]);
    }
}

proof fn lemma_header_read(d: Seq<u8>)
    requires
        d.len() == 640,
    ensures
        u32_bytes(u32_at(d, 0)) + u16_bytes(u16_at(d, 4)) + u16_bytes(u16_at(d, 6)) + u16_bytes(
            u16_at(d, 8),
        ) + u16_bytes(u16_at(d, 10)) + u16_bytes(u16_at(d, 12)) == d.subrange(0, 14),
{
    rd32(d, 0);
    rd16(d, 4);
    rd16(d, 6);
    rd16(d, 8);
    rd16(d, 10);
    rd16(d, 12);
    assert(u32_bytes(u32_at(d, 0)) + u16_bytes(u16_at(d, 4)) + u16_bytes(u16_at(d, 6)) + u16_bytes(
        u16_at(d, 8),
    ) + u16_bytes(u16_at(d, 10)) + u16_bytes(u16_at(d, 12)) =~= d.subrange(0, 14));
}

proof fn lemma_weapon_read(d: Seq<u8>, modern: bool, p: int)
    requires
        d.len() == 640,
        0 <= p,
        p + 12 <= 640,
    ensures
        weapon_bytes(weapon_at(d, modern, p)) == d.subrange(
            p,
            p + if modern {
                12int
            } else {
                8int
            },
        ),
{
    rd16(d, p);
    rd16(d, p + 2);
    rd16(d, p + 4);
    lemma_opt_u32_read(d, p + 8, modern);
    let w = weapon_at(d, modern, p);
    let q = p + if modern {
        12int
    } else {
        8int
    };
    assert(weapon_bytes(w) =~= d.subrange(p, p + 2) + d.subrange(p + 2, p + 4) + d.subrange(
        p + 4,
        p + 6,
    ) + d.subrange(p + 6, p + 8) + d.subrange(p + 8, q));
    assert(weapon_bytes(w) =~= d.subrange(p, q));
}

#[verifier::spinoff_prover]
proof fn lemma_equipment_read(d: Seq<u8>, modern: bool, has_weapon: bool)
    requires
        d.len() == 640,
    ensures
        ({
            let p = if modern {
                28int
            } else {
                24int
            };
            let q = if has_weapon {
                p + if modern {
                    12int
                } else {
                    8int
                }
            } else {
                p
            };
            let weapon = if has_weapon {
                Some(weapon_at(d, modern, p))
            } else {
                None
            };
            equipment_bytes(equipment_at(d, modern, q), weapon) == Some(d.subrange(14, q + 16))
        }),
{
    let p = if modern {
        28int
    } else {
        24int
    };
    let q = if has_weapon {
        p + if modern {
            12int
        } else {
            8int
        }
    } else {
        p
    };
    let weapon = if has_weapon {
        Some(weapon_at(d, modern, p))
    } else {
        None
    };
    let e = equipment_at(d, modern, q);
    rd16(d, 14);
    rd16(d, 16);
    rd16(d, 18);
    rd32(d, 20);
    lemma_opt_u16_read(d, 24, modern);
    lemma_opt_u16_read(d, 26, modern);
    rd16(d, q + 2);
    rd32(d, q + 4);
    rd16(d, q + 8);
    rd32(d, q + 12);
    let weapon_part = match weapon {
        Some(w) => weapon_bytes(w),
        None => seq![],
    };
    if has_weapon {
        lemma_weapon_read(d, modern, p);
    } else {
        assert(d.subrange(p, q) =~= seq![]);
    }
    assert(weapon_part == d.subrange(p, q));
    assert(opt_u16_bytes(e.superior_level) + opt_u16_bytes(e.shield_size) =~= d.subrange(24, p));
    let head = u16_bytes(e.level) + u16_bytes(e.slots) + u16_bytes(e.races) + u32_bytes(e.jobs);
    assert(head =~= d.subrange(14, 24));
    let tail = seq![e.max_charges, e.casting_time] + u16_bytes(e.use_delay) + u32_bytes(
        e.reuse_delay,
    ) + u16_bytes(e.unknown1) + seq![e.ilevel, e.unknown2] + u32_bytes(e.unknown3);
    assert(tail =~= d.subrange(q, q + 16));
    assert(equipment_bytes(e, weapon)->0 =~= head + (opt_u16_bytes(e.superior_level)
        + opt_u16_bytes(e.shield_size)) + weapon_part + tail);
    assert(d.subrange(14, q + 16) =~= d.subrange(14, 24) + d.subrange(24, p) + d.subrange(p, q)
        + d.subrange(q, q + 16));
}

} // verus!

verus! {

/// The category-specific fields read from `d` are written back as the same
/// bytes.
pub open spec fn payload_read_ok(d: Seq<u8>, category: ItemCategory, modern: bool) -> bool {
    let (p, off) = payload_spec(d, category, modern);
    &&& 14 <= off <= 112
    &&& category != ItemCategory::Unknown ==> off % 4 == 0
    &&& payload_bytes(p) == Some(d.subrange(14, off))
    &&& p.puppet is Some ==> element_sum(p.puppet->0.element_charge) <= u32::MAX
}

#[verifier::spinoff_prover]
proof fn lemma_payload_read_armor(d: Seq<u8>, modern: bool)
    requires
        d.len() == 640,
    ensures
        payload_read_ok(d, ItemCategory::Armor, modern),
{
    reveal(payload_spec);
    reveal(payload_bytes);
    let (p, off) = payload_spec(d, ItemCategory::Armor, modern);
    lemma_equipment_read(d, modern, false);
}

#[verifier::spinoff_prover]
proof fn lemma_payload_read_weapon(d: Seq<u8>, modern: bool)
    requires
        d.len() == 640,
    ensures
        payload_read_ok(d, ItemCategory::Weapon, modern),
{
    reveal(payload_spec);
    reveal(payload_bytes);
    let (p, off) = payload_spec(d, ItemCategory::Weapon, modern);
    lemma_equipment_read(d, modern, true);
}

#[verifier::spinoff_prover]
proof fn lemma_payload_read_puppetitem(d: Seq<u8>, modern: bool)
    requires
        d.len() == 640,
    ensures
        payload_read_ok(d, ItemCategory::PuppetItem, modern),
{
    reveal(payload_spec);
    reveal(payload_bytes);
    let (p, off) = payload_spec(d, ItemCategory::PuppetItem, modern);
    rd16(d, 14);
    rd32(d, 16);
    rd32(d, 20);
    lemma_element_values_round_trip(u32_at(d, 16));
    assert(payload_bytes(p)->0 =~= d.subrange(14, 24));
}

#[verifier::spinoff_prover]
proof fn lemma_payload_read_instinct(d: Seq<u8>, modern: bool)
    requires
        d.len() == 640,
    ensures
        payload_read_ok(d, ItemCategory::Instinct, modern),
{
    reveal(payload_spec);
    reveal(payload_bytes);
    let (p, off) = payload_spec(d, ItemCategory::Instinct, modern);
    rd32(d, 14);
    rd32(d, 18);
    rd16(d, 22);
    rd16(d, 24);
    rd16(d, 26);
    rd32(d, 28);
    rd32(d, 32);
    rd32(d, 36);
    assert(payload_bytes(p)->0 =~= d.subrange(14, 40));
}

#[verifier::spinoff_prover]
proof fn lemma_payload_read_item(d: Seq<u8>, modern: bool)
    requires
        d.len() == 640,
    ensures
        payload_read_ok(d, ItemCategory::Item, modern),
{
    reveal(payload_spec);
    reveal(payload_bytes);
    let (p, off) = payload_spec(d, ItemCategory::Item, modern);
    rd16(d, 14);
    rd32(d, 16);
    lemma_opt_u32_read(d, 20, modern);
    assert(payload_bytes(p)->0 =~= d.subrange(14, off));
}

#[verifier::spinoff_prover]
proof fn lemma_payload_read_usableitem(d: Seq<u8>, modern: bool)
    requires
        d.len() == 640,
    ensures
        payload_read_ok(d, ItemCategory::UsableItem, modern),
{
    reveal(payload_spec);
    reveal(payload_bytes);
    let (p, off) = payload_spec(d, ItemCategory::UsableItem, modern);
    rd16(d, 14);
    rd32(d, 16);
    lemma_opt_u32_read(d, 20, modern);
    lemma_opt_u32_read(d, 24, modern);
    assert(payload_bytes(p)->0 =~= d.subrange(14, off));
}

#[verifier::spinoff_prover]
proof fn lemma_payload_read_currency(d: Seq<u8>, modern: bool)
    requires
        d.len() == 640,
    ensures
        payload_read_ok(d, ItemCategory::Currency, modern),
{
    reveal(payload_spec);
    reveal(payload_bytes);
    let (p, off) = payload_spec(d, ItemCategory::Currency, modern);
    rd16(d, 14);
}

#[verifier::spinoff_prover]
proof fn lemma_payload_read_slip(d: Seq<u8>, modern: bool)
    requires
        d.len() == 640,
    ensures
        payload_read_ok(d, ItemCategory::Slip, modern),
{
    reveal(payload_spec);
    reveal(payload_bytes);
    let (p, off) = payload_spec(d, ItemCategory::Slip, modern);
    rd16(d, 14);
    lemma_u32s_read(d, 16, 17);
    assert(payload_bytes(p)->0 =~= d.subrange(14, 84));
}

#[verifier::spinoff_prover]
proof fn lemma_payload_read_monipulator(d: Seq<u8>, modern: bool)
    requires
        d.len() == 640,
    ensures
        payload_read_ok(d, ItemCategory::Monipulator, modern),
{
    reveal(payload_spec);
    reveal(payload_bytes);
    let (p, off) = payload_spec(d, ItemCategory::Monipulator, modern);
    rd16(d, 14);
    lemma_u32s_read(d, 16, 24);
    assert(payload_bytes(p)->0 =~= d.subrange(14, 112));
}

#[verifier::spinoff_prover]
proof fn lemma_payload_read_unknown(d: Seq<u8>, modern: bool)
    requires
        d.len() == 640,
    ensures
        payload_read_ok(d, ItemCategory::Unknown, modern),
{
    reveal(payload_spec);
    reveal(payload_bytes);
    let (p, off) = payload_spec(d, ItemCategory::Unknown, modern);
    assert(d.subrange(14, 14) =~= seq![]);
}

proof fn lemma_payload_read(d: Seq<u8>, category: ItemCategory, modern: bool)
    requires
        d.len() == 640,
    ensures
        payload_read_ok(d, category, modern),
{
    match category {
        ItemCategory::Armor => lemma_payload_read_armor(d, modern),
        ItemCategory::Weapon => lemma_payload_read_weapon(d, modern),
        ItemCategory::PuppetItem => lemma_payload_read_puppetitem(d, modern),
        ItemCategory::Instinct => lemma_payload_read_instinct(d, modern),
        ItemCategory::Item => lemma_payload_read_item(d, modern),
        ItemCategory::UsableItem => lemma_payload_read_usableitem(d, modern),
        ItemCategory::Currency => lemma_payload_read_currency(d, modern),
        ItemCategory::Slip => lemma_payload_read_slip(d, modern),
        ItemCategory::Monipulator => lemma_payload_read_monipulator(d, modern),
        ItemCategory::Unknown => lemma_payload_read_unknown(d, modern),
    }
}

} // verus!

verus! {

#[verifier::spinoff_prover]
#[verifier::rlimit(40)]
proof fn lemma_entry_data(e: Seq<u8>)
    requires
        e.len() == ENTRY_SIZE,
        parse_entry_spec(e) is Some,
    ensures
        writable(parse_entry_spec(e)->0),
        exportable(parse_entry_spec(e)->0),
        data_bytes(parse_entry_spec(e)->0) is Some,
        ({
            let data = data_bytes(parse_entry_spec(e)->0)->0;
            data.len() <= 640 && data + zeros((640 - data.len()) as nat) == e.subrange(0, 640)
        }),
{
    reveal(parse_entry_spec);
    let m = parse_entry_spec(e)->0;
    let d = e.subrange(0, 640);
    let category = spec_category(u32_at(d, 0));
    let modern = detect_modern_spec(d, category)->0;
    let (payload, off) = payload_spec(d, category, modern);
    let (strings, end) = crate::formats::item_strings::parse_strings_spec(d, off)->0;
    lemma_payload_read(d, category, modern);
    crate::formats::item_strings::lemma_strings_section_round_trip(d, off);
    lemma_header_read(d);
    let section = crate::formats::item_strings::section_bytes(
        crate::formats::item_strings::strings_contents(strings),
    );
    let data = header_bytes(m) + payload_bytes(payload)->0 + section;
    assert(data =~= d.subrange(0, 14) + d.subrange(14, off) + d.subrange(off, end));
    assert(data =~= d.subrange(0, end));
    assert(end % 4 == 0);
    assert(end + 4 * ((640 - end) / 4) == 640);
    assert(zeros((640 - end) as nat) =~= d.subrange(end, 640));
    assert(data + zeros((640 - data.len()) as nat) =~= e.subrange(0, 640));
}

#[verifier::spinoff_prover]
proof fn lemma_entry_icon(e: Seq<u8>)
    requires
        e.len() == ENTRY_SIZE,
        parse_entry_spec(e) is Some,
    ensures
        ({
            let m = parse_entry_spec(e)->0;
            &&& !(m.unterminated_icon_padding && m.icon_bytes.len() > 0)
            &&& 4 + m.icon_bytes.len() + icon_tail(m) <= 2432
            &&& icon_region(m) == e.subrange(640, 3072)
        }),
{
    reveal(parse_entry_spec);
    let m = parse_entry_spec(e)->0;
    let size = u32_at(e, 640);
    rd32(e, 640);
    assert(m.icon_bytes.len() == size);
    if m.unterminated_icon_padding {
        assert(zeros((2432 - 4 - m.icon_bytes.len() - icon_tail(m)) as nat) =~= e.subrange(
            644,
            3072,
        ));
        assert(icon_region(m) =~= e.subrange(640, 644) + e.subrange(644, 644) + e.subrange(
            644,
            3072,
        ));
    } else {
        assert(zeros((2432 - 4 - m.icon_bytes.len() - icon_tail(m)) as nat) =~= e.subrange(
            644 + size,
            3071,
        ));
        assert(icon_region(m) =~= e.subrange(640, 644) + e.subrange(644, 644 + size) + e.subrange(
            644 + size,
            3071,
        ) + e.subrange(3071, 3072));
    }
    assert(icon_region(m) =~= e.subrange(640, 3072));
}

/// A decoded record that the reader accepts is written back byte for byte.
pub proof fn lemma_entry_round_trip(e: Seq<u8>)
    requires
        e.len() == ENTRY_SIZE,
        parse_entry_spec(e) is Some,
    ensures
        writable(parse_entry_spec(e)->0),
        exportable(parse_entry_spec(e)->0),
        entry_bytes(parse_entry_spec(e)->0) == Some(e),
{
    lemma_entry_data(e);
    lemma_entry_icon(e);
    assert(e =~= e.subrange(0, 640) + e.subrange(640, 3072));
}

} // verus!

verus! {

impl ItemInfo {
    /// Appends the stored form of the record (its bytes rotated) to `out`.
    pub fn write(&self, out: &mut Vec<u8>) -> (r: Result<(), crate::error::DatError>)
        requires
            writable(self@),
        ensures
            match r {
                Ok(()) => entry_bytes(self@) is Some && final(out)@ == old(out)@
                    + crate::bytes::rotate_seq(entry_bytes(self@)->0, 3),
                Err(err) => entry_bytes(self@) is None && err == crate::error::DatError::Unwritable
                    && final(out)@ == old(out)@,
            },
    {
        let mut e = write_entry(self)?;
        crate::bytes::rotate_all(&mut e, 3);
        crate::bytes::push_bytes(out, e.as_slice());
        Ok(())
    }
}

/// A table of item records.
#[derive(Debug, PartialEq, Eq)]
pub struct ItemInfoTable {
    pub items: Vec<ItemInfo>,
}

pub open spec fn entry_at(b: Seq<u8>, k: int) -> Seq<u8> {
    crate::bytes::rotate_seq(b.subrange(3072 * k, 3072 * (k + 1)), 5)
}

/// Reads the first `n` records of `b`.
pub open spec fn parse_entries_spec(b: Seq<u8>, n: int) -> Option<Seq<ItemModel>>
    decreases n,
{
    if n <= 0 {
        Some(seq![])
    } else {
        match parse_entries_spec(b, n - 1) {
            None => None,
            Some(items) => match parse_entry_spec(entry_at(b, n - 1)) {
                None => None,
                Some(item) => Some(items.push(item)),
            },
        }
    }
}

/// Reads an item table: a whole number of records.
pub open spec fn parse_table_spec(b: Seq<u8>) -> Option<Seq<ItemModel>> {
    if b.len() as int % 3072 != 0 {
        None
    } else {
        parse_entries_spec(b, b.len() as int / 3072)
    }
}

/// The stored bytes of an item table, or `None` when a record cannot be
/// written.
pub open spec fn write_table_spec(items: Seq<ItemModel>) -> Option<Seq<u8>>
    decreases items.len(),
{
    if items.len() == 0 {
        Some(seq![])
    } else {
        match (write_table_spec(items.drop_last()), entry_bytes(items.last())) {
            (Some(prefix), Some(e)) => Some(prefix + crate::bytes::rotate_seq(e, 3)),
            _ => None,
        }
    }
}

pub open spec fn items_view(items: Seq<ItemInfo>) -> Seq<ItemModel> {
    items.map_values(|i: ItemInfo| i@)
}

impl View for ItemInfoTable {
    type V = Seq<ItemModel>;

    open spec fn view(&self) -> Seq<ItemModel> {
        items_view(self.items@)
    }
}

proof fn lemma_parse_entries_none(b: Seq<u8>, n: int, m: int)
    requires
        0 <= n <= m,
        parse_entries_spec(b, n) is None,
    ensures
        parse_entries_spec(b, m) is None,
    decreases m - n,
{
    if m > n {
        lemma_parse_entries_none(b, n, m - 1);
    }
}

proof fn lemma_write_table_none(items: Seq<ItemModel>, n: int)
    requires
        0 <= n <= items.len(),
        write_table_spec(items.subrange(0, n)) is None,
    ensures
        write_table_spec(items) is None,
    decreases items.len() - n,
{
    if n < items.len() {
        assert(items.subrange(0, n + 1).drop_last() =~= items.subrange(0, n));
        lemma_write_table_none(items, n + 1);
    } else {
        assert(items.subrange(0, n) =~= items);
    }
}

impl ItemInfoTable {
    /// Whether `bytes` look like an item table DAT: a whole number of records,
    /// of which the first reads.
    pub fn check_type(bytes: &[u8]) -> (r: bool)
        ensures
            r == (bytes@.len() % (ENTRY_SIZE as nat) == 0 && bytes@.len() >= ENTRY_SIZE && parse_entry_spec(
                crate::bytes::rotate_seq(bytes@.subrange(0, ENTRY_SIZE as int), 5),
            ) is Some),
    {
        if bytes.len() % ENTRY_SIZE != 0 {
            return false;
        }
        ItemInfo::parse(bytes, 0).is_ok()
    }

    /// Reads an item table DAT.
    pub fn parse(bytes: &[u8]) -> (r: Result<ItemInfoTable, crate::error::DatError>)
        ensures
            match r {
                Ok(table) => parse_table_spec(bytes@) == Some(table@),
                Err(err) => parse_table_spec(bytes@) is None && err == (if bytes@.len() % (ENTRY_SIZE as nat)
                    != 0 {
                    crate::error::DatError::ItemTableLength(bytes@.len() as usize)
                } else {
                    crate::error::DatError::Malformed
                }),
            },
    {
        if bytes.len() % ENTRY_SIZE != 0 {
            return Err(crate::error::DatError::ItemTableLength(bytes.len()));
        }
        let count = bytes.len() / ENTRY_SIZE;
        let mut items: Vec<ItemInfo> = Vec::new();
        let mut k: usize = 0;
        while k < count
            invariant
                count == bytes@.len() as int / 3072,
                bytes@.len() as int % 3072 == 0,
                k <= count,
                parse_entries_spec(bytes@, k as int) == Some(items_view(items@)),
            decreases count - k,
        {
            proof {
                assert(3072 * (k + 1) <= bytes@.len()) by (nonlinear_arith)
                    requires
                        k < count,
                        count == bytes@.len() as int / 3072,
                ;
                assert(bytes@.len() == bytes.len());
            }
            let item = ItemInfo::parse(bytes, ENTRY_SIZE * k);
            match item {
                Ok(item) => {
                    let ghost before = items_view(items@);
                    items.push(item);
                    assert(items_view(items@) =~= before.push(item@));
                },
                Err(e) => {
                    proof {
                        lemma_parse_entries_none(bytes@, k + 1, count as int);
                    }
                    return Err(e);
                },
            }
            k = k + 1;
        }
        Ok(ItemInfoTable { items })
    }

    /// Writes the table: its records' stored bytes, one after another.
    pub fn write(&self) -> (r: Result<Vec<u8>, crate::error::DatError>)
        requires
            forall|i: int| 0 <= i < self.items@.len() ==> writable(#[trigger] self.items@[i]@),
        ensures
            match r {
                Ok(bytes) => write_table_spec(self@) == Some(bytes@),
                Err(err) => write_table_spec(self@) is None && err
                    == crate::error::DatError::Unwritable,
            },
    {
        let mut out: Vec<u8> = Vec::new();
        let mut k: usize = 0;
        while k < self.items.len()
            invariant
                k <= self.items@.len(),
                forall|i: int| 0 <= i < self.items@.len() ==> writable(#[trigger] self.items@[i]@),
                write_table_spec(items_view(self.items@.subrange(0, k as int))) == Some(out@),
            decreases self.items@.len() - k,
        {
            let ghost prefix = items_view(self.items@.subrange(0, k as int));
            let ghost next = items_view(self.items@.subrange(0, k + 1));
            proof {
                assert(next.drop_last() =~= prefix);
                assert(next.last() == self.items@[k as int]@);
            }
            match self.items[k].write(&mut out) {
                Ok(()) => {},
                Err(e) => {
                    proof {
                        assert(items_view(self.items@).subrange(0, k + 1) =~= next);
                        lemma_write_table_none(items_view(self.items@), k + 1);
                    }
                    return Err(e);
                },
            }
            k = k + 1;
        }
        assert(self.items@.subrange(0, self.items@.len() as int) =~= self.items@);
        Ok(out)
    }
}

} // verus!

verus! {

proof fn lemma_rotate_back(x: Seq<u8>)
    ensures
        crate::bytes::rotate_seq(crate::bytes::rotate_seq(x, 5), 3) == x,
{
    assert forall|i: int| 0 <= i < x.len() implies crate::bytes::rotate_seq(
        crate::bytes::rotate_seq(x, 5),
        3,
    )[i] == x[i] by {
        crate::bytes::lemma_rotr_inverse(x[i]);
    }
    assert(crate::bytes::rotate_seq(crate::bytes::rotate_seq(x, 5), 3) =~= x);
}

proof fn lemma_entries_round_trip(b: Seq<u8>, n: int)
    requires
        0 <= n,
        3072 * n <= b.len(),
        parse_entries_spec(b, n) is Some,
    ensures
        write_table_spec(parse_entries_spec(b, n)->0) == Some(b.subrange(0, 3072 * n)),
        parse_entries_spec(b, n)->0.len() == n,
        forall|i: int|
            0 <= i < n ==> writable(#[trigger] parse_entries_spec(b, n)->0[i]) && exportable(
                parse_entries_spec(b, n)->0[i],
            ),
    decreases n,
{
    if n == 0 {
        assert(b.subrange(0, 0) =~= seq![]);
    } else {
        lemma_entries_round_trip(b, n - 1);
        let prev = parse_entries_spec(b, n - 1)->0;
        let e = entry_at(b, n - 1);
        let m = parse_entry_spec(e)->0;
        lemma_entry_round_trip(e);
        let items = prev.push(m);
        assert(items.drop_last() =~= prev);
        lemma_rotate_back(b.subrange(3072 * (n - 1), 3072 * n));
        assert(b.subrange(0, 3072 * n) =~= b.subrange(0, 3072 * (n - 1)) + b.subrange(
            3072 * (n - 1),
            3072 * n,
        ));
        assert forall|i: int| 0 <= i < n implies writable(#[trigger] items[i]) && exportable(
            items[i],
        ) by {
            if i < n - 1 {
                assert(items[i] == prev[i]);
            }
        }
    }
}

/// Whatever item table the reader accepts, the writer gives back byte for
/// byte, and every record it holds can be written and exported.
pub proof fn lemma_item_table_round_trip(b: Seq<u8>)
    requires
        parse_table_spec(b) is Some,
    ensures
        write_table_spec(parse_table_spec(b)->0) == Some(b),
        forall|i: int|
            0 <= i < parse_table_spec(b)->0.len() ==> writable(#[trigger] parse_table_spec(b)->0[i])
                && exportable(parse_table_spec(b)->0[i]),
{
    let n = b.len() as int / 3072;
    assert(3072 * n == b.len());
    lemma_entries_round_trip(b, n);
    assert(b.subrange(0, 3072 * n) =~= b);
}

} // verus!
