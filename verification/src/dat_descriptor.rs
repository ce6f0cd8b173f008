use vstd::prelude::*;
use vstd::string::{StrSliceExecFns, StringExecFns};
use crate::dat_path::{scan_segments, segments};
use crate::id_mapping::{zone_lookup, Dat, DatIdMapping};
use crate::text::str_equal;

verus! {

/// A DAT the editor converts, by what it holds; per-zone DATs carry the zone.
#[derive(Clone, Copy, Debug, PartialEq, Eq, Structural, Hash, PartialOrd, Ord)]
pub enum DatDescriptor {
    DataMenu,
    QuestsMissionsKeyItems,
    AbilityNames,
    AbilityDescriptions,
    AreaNames,
    AreaNamesShort,
    AreaNamesAlt,
    Augments,
    BlueMagic,
    CallMount,
    CharacterSelect,
    ChatFilterTypes,
    ChocoboNames,
    CommandUsage,
    DayNames,
    Directions,
    EinherjarChambers,
    Emotes,
    EquipmentLocations,
    EquipmentLocationsAlt,
    ErrorMessages,
    IngameMessages1,
    IngameMessages2,
    JobNames,
    JobNamesShort,
    JobPointBonuses,
    JobPointGifts,
    KeyItems,
    MenuItemsDescription,
    MenuItemsText,
    Merits,
    MissionsAcp,
    MissionsAmke,
    MissionsAsa,
    MissionsAssault,
    MissionsBastok,
    MissionsCampaign,
    MissionsCop,
    MissionsRov,
    MissionsSandoria,
    MissionsSoa,
    MissionsToau,
    MissionsWindurst,
    MissionsWotg,
    MissionsZilart,
    MoblinMazeMongers,
    Modifiers,
    MonsterFamilies,
    MoonPhases,
    PankrationNames,
    PolMessages,
    QuestsAbyssea,
    QuestsBastok,
    QuestsCoalition,
    QuestsJeuno,
    QuestsOther,
    QuestsOutlands,
    QuestsSandoria,
    QuestsSoa,
    QuestsToau,
    QuestsWindurst,
    QuestsWotg,
    RaceNames,
    RegionNames,
    ServerNames,
    SpellNames,
    SpellDescriptions,
    StatusInfo,
    StatusNames,
    TimeAndPronouns,
    Titles,
    TrustMessages,
    Misc1,
    Misc2,
    WeatherTypes,
    Armor,
    Armor2,
    Currency,
    GeneralItems,
    GeneralItems2,
    PuppetItems,
    UsableItems,
    Weapons,
    VouchersAndSlips,
    Monipulator,
    Instincts,
    MonsterSkillNames,
    StatusNamesDialog,
    EmoteMessages,
    SystemMessages1,
    SystemMessages2,
    SystemMessages3,
    SystemMessages4,
    UnityDialogs,
    ZoneData(u16),
    EntityNames(u16),
    Dialog(u16),
    Dialog2(u16),
    Events(u16),
}

/// The file names of the zones: each zone ID with the name of its files.
#[derive(Clone, Debug)]
pub struct ZoneNames {
    pub entries: Vec<(u16, String)>,
}

/// The file name of zone `id`: that of the last entry for it.
pub open spec fn zone_name_of(entries: Seq<(u16, String)>, id: u16) -> Option<Seq<char>>
    decreases entries.len(),
{
    if entries.len() == 0 {
        None
    } else if entries.last().0 == id {
        Some(entries.last().1@)
    } else {
        zone_name_of(entries.drop_last(), id)
    }
}

/// The zone whose files are named `name`: that of the last entry with it.
pub open spec fn zone_id_of(entries: Seq<(u16, String)>, name: Seq<char>) -> Option<u16>
    decreases entries.len(),
{
    if entries.len() == 0 {
        None
    } else if entries.last().1@ == name {
        Some(entries.last().0)
    } else {
        zone_id_of(entries.drop_last(), name)
    }
}

impl ZoneNames {
    /// The file name of zone `id`.
    pub fn name_of(&self, id: u16) -> (r: Option<String>)
        ensures
            match r {
                Some(s) => zone_name_of(self.entries@, id) == Some(s@),
                None => zone_name_of(self.entries@, id) is None,
            },
    {
        let mut i = self.entries.len();
        assert(self.entries@.subrange(0, i as int) =~= self.entries@);
        while i > 0
            invariant
                i <= self.entries@.len(),
                zone_name_of(self.entries@, id) == zone_name_of(self.entries@.subrange(0, i as int), id),
            decreases i,
        {
            assert(self.entries@.subrange(0, i as int).drop_last() =~= self.entries@.subrange(0, i - 1));
            if self.entries[i - 1].0 == id {
                return Some(self.entries[i - 1].1.clone());
            }
            i = i - 1;
        }
        None
    }

    /// The zone whose files are named `name`.
    pub fn id_of(&self, name: &str) -> (r: Option<u16>)
        ensures
            r == zone_id_of(self.entries@, name@),
    {
        let mut i = self.entries.len();
        assert(self.entries@.subrange(0, i as int) =~= self.entries@);
        while i > 0
            invariant
                i <= self.entries@.len(),
                zone_id_of(self.entries@, name@) == zone_id_of(self.entries@.subrange(0, i as int), name@),
            decreases i,
        {
            assert(self.entries@.subrange(0, i as int).drop_last() =~= self.entries@.subrange(0, i - 1));
            if str_equal(self.entries[i - 1].1.as_str(), name) {
                return Some(self.entries[i - 1].0);
            }
            i = i - 1;
        }
        None
    }
}

/// Why a DAT cannot be converted.
#[derive(Clone, Copy, Debug, PartialEq, Eq, Structural)]
pub enum ConversionError {
    /// The zone of a per-zone DAT has no file name.
    NoZoneName,
    /// The zone of a per-zone DAT has no DAT in the table of its kind.
    NoZoneDat,
}

impl ConversionError {
    /// What the error says.
    pub fn message(&self) -> (s: String)
        ensures
            s@ == (match self {
                ConversionError::NoZoneName => "No zone name found for zone ID."@,
                ConversionError::NoZoneDat => "No DAT found for zone ID."@,
            }),
    {
        match self {
            ConversionError::NoZoneName => String::from_str("No zone name found for zone ID."),
            ConversionError::NoZoneDat => String::from_str("No DAT found for zone ID."),
        }
    }
}

/// A conversion of one DAT: the DAT and the YAML file beside it, relative
/// to the raw data directory.
#[derive(Clone, Debug)]
pub struct DatConversion {
    pub dat: Dat,
    pub yaml_path: String,
}

impl DatDescriptor {
    /// The path of the YAML file of a DAT that is not per zone, without extension.
    pub open spec fn plain_name(self) -> Option<Seq<char>> {
        match self {
            DatDescriptor::DataMenu => Some("data_menu"@),
            DatDescriptor::QuestsMissionsKeyItems => Some("quests_mission_keyitems"@),
            DatDescriptor::AbilityNames => Some("ability_names"@),
            DatDescriptor::AbilityDescriptions => Some("ability_descriptions"@),
            DatDescriptor::AreaNames => Some("area_names"@),
            DatDescriptor::AreaNamesShort => Some("area_names_short"@),
            DatDescriptor::AreaNamesAlt => Some("area_names_alt"@),
            DatDescriptor::Augments => Some("augments"@),
            DatDescriptor::BlueMagic => Some("blue_magic"@),
            DatDescriptor::CallMount => Some("call_mount"@),
            DatDescriptor::CharacterSelect => Some("character_select"@),
            DatDescriptor::ChatFilterTypes => Some("chat_filter_types"@),
            DatDescriptor::ChocoboNames => Some("chocobo_names"@),
            DatDescriptor::CommandUsage => Some("command_usage"@),
            DatDescriptor::DayNames => Some("day_names"@),
            DatDescriptor::Directions => Some("directions"@),
            DatDescriptor::EinherjarChambers => Some("einherjar_chambers"@),
            DatDescriptor::Emotes => Some("emotes"@),
            DatDescriptor::EquipmentLocations => Some("equipment_locations"@),
            DatDescriptor::EquipmentLocationsAlt => Some("equipment_locations_alt"@),
            DatDescriptor::ErrorMessages => Some("error_messages"@),
            DatDescriptor::IngameMessages1 => Some("ingame_messages1"@),
            DatDescriptor::IngameMessages2 => Some("ingame_messages2"@),
            DatDescriptor::JobNames => Some("job_names"@),
            DatDescriptor::JobNamesShort => Some("job_names_short"@),
            DatDescriptor::JobPointBonuses => Some("job_point_bonuses"@),
            DatDescriptor::JobPointGifts => Some("job_point_gifts"@),
            DatDescriptor::KeyItems => Some("key_items"@),
            DatDescriptor::MenuItemsDescription => Some("menu_items_description"@),
            DatDescriptor::MenuItemsText => Some("menu_items_text"@),
            DatDescriptor::Merits => Some("merits"@),
            DatDescriptor::MissionsAcp => Some("missions_acp"@),
            DatDescriptor::MissionsAmke => Some("missions_amke"@),
            DatDescriptor::MissionsAsa => Some("missions_asa"@),
            DatDescriptor::MissionsAssault => Some("missions_assault"@),
            DatDescriptor::MissionsBastok => Some("missions_bastok"@),
            DatDescriptor::MissionsCampaign => Some("missions_campaign"@),
            DatDescriptor::MissionsCop => Some("missions_cop"@),
            DatDescriptor::MissionsRov => Some("missions_rov"@),
            DatDescriptor::MissionsSandoria => Some("missions_sandoria"@),
            DatDescriptor::MissionsSoa => Some("missions_soa"@),
            DatDescriptor::MissionsToau => Some("missions_toau"@),
            DatDescriptor::MissionsWindurst => Some("missions_windurst"@),
            DatDescriptor::MissionsWotg => Some("missions_wotg"@),
            DatDescriptor::MissionsZilart => Some("missions_zilart"@),
            DatDescriptor::MoblinMazeMongers => Some("moblin_maze_mongers"@),
            DatDescriptor::Modifiers => Some("modifiers"@),
            DatDescriptor::MonsterFamilies => Some("monster_families"@),
            DatDescriptor::MoonPhases => Some("moon_phases"@),
            DatDescriptor::PankrationNames => Some("pankration_names"@),
            DatDescriptor::PolMessages => Some("pol_messages"@),
            DatDescriptor::QuestsAbyssea => Some("quests_abyssea"@),
            DatDescriptor::QuestsBastok => Some("quests_bastok"@),
            DatDescriptor::QuestsCoalition => Some("quests_coalition"@),
            DatDescriptor::QuestsJeuno => Some("quests_jeuno"@),
            DatDescriptor::QuestsOther => Some("quests_other"@),
            DatDescriptor::QuestsOutlands => Some("quests_outlands"@),
            DatDescriptor::QuestsSandoria => Some("quests_sandoria"@),
            DatDescriptor::QuestsSoa => Some("quests_soa"@),
            DatDescriptor::QuestsToau => Some("quests_toau"@),
            DatDescriptor::QuestsWindurst => Some("quests_windurst"@),
            DatDescriptor::QuestsWotg => Some("quests_wotg"@),
            DatDescriptor::RaceNames => Some("race_names"@),
            DatDescriptor::RegionNames => Some("region_names"@),
            DatDescriptor::ServerNames => Some("server_names"@),
            DatDescriptor::SpellNames => Some("spell_names"@),
            DatDescriptor::SpellDescriptions => Some("spell_descriptions"@),
            DatDescriptor::StatusInfo => Some("status_info"@),
            DatDescriptor::StatusNames => Some("status_names"@),
            DatDescriptor::TimeAndPronouns => Some("time_and_pronouns"@),
            DatDescriptor::Titles => Some("titles"@),
            DatDescriptor::TrustMessages => Some("trust_messages"@),
            DatDescriptor::Misc1 => Some("misc1"@),
            DatDescriptor::Misc2 => Some("misc2"@),
            DatDescriptor::WeatherTypes => Some("weather_types"@),
            DatDescriptor::Armor => Some("items/armor"@),
            DatDescriptor::Armor2 => Some("items/armor2"@),
            DatDescriptor::Currency => Some("items/currency"@),
            DatDescriptor::GeneralItems => Some("items/general_items"@),
            DatDescriptor::GeneralItems2 => Some("items/general_items2"@),
            DatDescriptor::PuppetItems => Some("items/puppet_items"@),
            DatDescriptor::UsableItems => Some("items/usable_items"@),
            DatDescriptor::Weapons => Some("items/weapons"@),
            DatDescriptor::VouchersAndSlips => Some("items/vouchers_and_slips"@),
            DatDescriptor::Monipulator => Some("items/monipulator"@),
            DatDescriptor::Instincts => Some("items/instincts"@),
            DatDescriptor::MonsterSkillNames => Some("global_dialog/monster_skill_names"@),
            DatDescriptor::StatusNamesDialog => Some("global_dialog/status_names_dialog"@),
            DatDescriptor::EmoteMessages => Some("global_dialog/emote_messages"@),
            DatDescriptor::SystemMessages1 => Some("global_dialog/system_messages1"@),
            DatDescriptor::SystemMessages2 => Some("global_dialog/system_messages2"@),
            DatDescriptor::SystemMessages3 => Some("global_dialog/system_messages3"@),
            DatDescriptor::SystemMessages4 => Some("global_dialog/system_messages4"@),
            DatDescriptor::UnityDialogs => Some("global_dialog/unity_dialogs"@),
            _ => None,
        }
    }

    /// The directory and zone of a per-zone DAT.
    pub open spec fn zone_dir(self) -> Option<(Seq<char>, u16)> {
        match self {
            DatDescriptor::ZoneData(z) => Some(("zones"@, z)),
            DatDescriptor::EntityNames(z) => Some(("entity_names"@, z)),
            DatDescriptor::Dialog(z) => Some(("dialog"@, z)),
            DatDescriptor::Dialog2(z) => Some(("dialog2"@, z)),
            DatDescriptor::Events(z) => Some(("events"@, z)),
            _ => None,
        }
    }

    /// The path of the YAML file of the DAT, without extension: per-zone
    /// DATs live in their directory under the zone's file name.
    pub open spec fn relative_path_spec(self, zones: Seq<(u16, String)>) -> Option<Seq<char>> {
        match self.plain_name() {
            Some(n) => Some(n),
            None => match self.zone_dir() {
                Some((dir, z)) => match zone_name_of(zones, z) {
                    Some(name) => Some(dir + seq!['/'] + name),
                    None => None,
                },
                None => None,
            },
        }
    }

    /// `dir/` and the file name of zone `zone_id`.
    fn get_zoned_file_name(zones: &ZoneNames, dir_name: &'static str, zone_id: u16) -> (r: Option<String>)
        ensures
            match r {
                Some(s) => (match zone_name_of(zones.entries@, zone_id) {
                    Some(name) => s@ == dir_name@ + seq!['/'] + name,
                    None => false,
                }),
                None => zone_name_of(zones.entries@, zone_id) is None,
            },
    {
        match zones.name_of(zone_id) {
            Some(name) => {
                let mut s = String::from_str(dir_name);
                proof {
                    reveal_strlit("/");
                }
                s.append("/");
                s.append(name.as_str());
                Some(s)
            },
            None => None,
        }
    }

    /// The path of the DAT's YAML file, without extension; `None` for a
    /// per-zone DAT whose zone has no file name.
    pub fn get_relative_path(&self, zones: &ZoneNames) -> (r: Option<String>)
        ensures
            match r {
                Some(s) => self.relative_path_spec(zones.entries@) == Some(s@),
                None => self.relative_path_spec(zones.entries@) is None,
            },
    {
        match self {
            DatDescriptor::DataMenu => Some(String::from_str("data_menu")),
            DatDescriptor::QuestsMissionsKeyItems => Some(String::from_str("quests_mission_keyitems")),
            DatDescriptor::AbilityNames => Some(String::from_str("ability_names")),
            DatDescriptor::AbilityDescriptions => Some(String::from_str("ability_descriptions")),
            DatDescriptor::AreaNames => Some(String::from_str("area_names")),
            DatDescriptor::AreaNamesShort => Some(String::from_str("area_names_short")),
            DatDescriptor::AreaNamesAlt => Some(String::from_str("area_names_alt")),
            DatDescriptor::Augments => Some(String::from_str("augments")),
            DatDescriptor::BlueMagic => Some(String::from_str("blue_magic")),
            DatDescriptor::CallMount => Some(String::from_str("call_mount")),
            DatDescriptor::CharacterSelect => Some(String::from_str("character_select")),
            DatDescriptor::ChatFilterTypes => Some(String::from_str("chat_filter_types")),
            DatDescriptor::ChocoboNames => Some(String::from_str("chocobo_names")),
            DatDescriptor::CommandUsage => Some(String::from_str("command_usage")),
            DatDescriptor::DayNames => Some(String::from_str("day_names")),
            DatDescriptor::Directions => Some(String::from_str("directions")),
            DatDescriptor::EinherjarChambers => Some(String::from_str("einherjar_chambers")),
            DatDescriptor::Emotes => Some(String::from_str("emotes")),
            DatDescriptor::EquipmentLocations => Some(String::from_str("equipment_locations")),
            DatDescriptor::EquipmentLocationsAlt => Some(String::from_str("equipment_locations_alt")),
            DatDescriptor::ErrorMessages => Some(String::from_str("error_messages")),
            DatDescriptor::IngameMessages1 => Some(String::from_str("ingame_messages1")),
            DatDescriptor::IngameMessages2 => Some(String::from_str("ingame_messages2")),
            DatDescriptor::JobNames => Some(String::from_str("job_names")),
            DatDescriptor::JobNamesShort => Some(String::from_str("job_names_short")),
            DatDescriptor::JobPointBonuses => Some(String::from_str("job_point_bonuses")),
            DatDescriptor::JobPointGifts => Some(String::from_str("job_point_gifts")),
            DatDescriptor::KeyItems => Some(String::from_str("key_items")),
            DatDescriptor::MenuItemsDescription => Some(String::from_str("menu_items_description")),
            DatDescriptor::MenuItemsText => Some(String::from_str("menu_items_text")),
            DatDescriptor::Merits => Some(String::from_str("merits")),
            DatDescriptor::MissionsAcp => Some(String::from_str("missions_acp")),
            DatDescriptor::MissionsAmke => Some(String::from_str("missions_amke")),
            DatDescriptor::MissionsAsa => Some(String::from_str("missions_asa")),
            DatDescriptor::MissionsAssault => Some(String::from_str("missions_assault")),
            DatDescriptor::MissionsBastok => Some(String::from_str("missions_bastok")),
            DatDescriptor::MissionsCampaign => Some(String::from_str("missions_campaign")),
            DatDescriptor::MissionsCop => Some(String::from_str("missions_cop")),
            DatDescriptor::MissionsRov => Some(String::from_str("missions_rov")),
            DatDescriptor::MissionsSandoria => Some(String::from_str("missions_sandoria")),
            DatDescriptor::MissionsSoa => Some(String::from_str("missions_soa")),
            DatDescriptor::MissionsToau => Some(String::from_str("missions_toau")),
            DatDescriptor::MissionsWindurst => Some(String::from_str("missions_windurst")),
            DatDescriptor::MissionsWotg => Some(String::from_str("missions_wotg")),
            DatDescriptor::MissionsZilart => Some(String::from_str("missions_zilart")),
            DatDescriptor::MoblinMazeMongers => Some(String::from_str("moblin_maze_mongers")),
            DatDescriptor::Modifiers => Some(String::from_str("modifiers")),
            DatDescriptor::MonsterFamilies => Some(String::from_str("monster_families")),
            DatDescriptor::MoonPhases => Some(String::from_str("moon_phases")),
            DatDescriptor::PankrationNames => Some(String::from_str("pankration_names")),
            DatDescriptor::PolMessages => Some(String::from_str("pol_messages")),
            DatDescriptor::QuestsAbyssea => Some(String::from_str("quests_abyssea")),
            DatDescriptor::QuestsBastok => Some(String::from_str("quests_bastok")),
            DatDescriptor::QuestsCoalition => Some(String::from_str("quests_coalition")),
            DatDescriptor::QuestsJeuno => Some(String::from_str("quests_jeuno")),
            DatDescriptor::QuestsOther => Some(String::from_str("quests_other")),
            DatDescriptor::QuestsOutlands => Some(String::from_str("quests_outlands")),
            DatDescriptor::QuestsSandoria => Some(String::from_str("quests_sandoria")),
            DatDescriptor::QuestsSoa => Some(String::from_str("quests_soa")),
            DatDescriptor::QuestsToau => Some(String::from_str("quests_toau")),
            DatDescriptor::QuestsWindurst => Some(String::from_str("quests_windurst")),
            DatDescriptor::QuestsWotg => Some(String::from_str("quests_wotg")),
            DatDescriptor::RaceNames => Some(String::from_str("race_names")),
            DatDescriptor::RegionNames => Some(String::from_str("region_names")),
            DatDescriptor::ServerNames => Some(String::from_str("server_names")),
            DatDescriptor::SpellNames => Some(String::from_str("spell_names")),
            DatDescriptor::SpellDescriptions => Some(String::from_str("spell_descriptions")),
            DatDescriptor::StatusInfo => Some(String::from_str("status_info")),
            DatDescriptor::StatusNames => Some(String::from_str("status_names")),
            DatDescriptor::TimeAndPronouns => Some(String::from_str("time_and_pronouns")),
            DatDescriptor::Titles => Some(String::from_str("titles")),
            DatDescriptor::TrustMessages => Some(String::from_str("trust_messages")),
            DatDescriptor::Misc1 => Some(String::from_str("misc1")),
            DatDescriptor::Misc2 => Some(String::from_str("misc2")),
            DatDescriptor::WeatherTypes => Some(String::from_str("weather_types")),
            DatDescriptor::Armor => Some(String::from_str("items/armor")),
            DatDescriptor::Armor2 => Some(String::from_str("items/armor2")),
            DatDescriptor::Currency => Some(String::from_str("items/currency")),
            DatDescriptor::GeneralItems => Some(String::from_str("items/general_items")),
            DatDescriptor::GeneralItems2 => Some(String::from_str("items/general_items2")),
            DatDescriptor::PuppetItems => Some(String::from_str("items/puppet_items")),
            DatDescriptor::UsableItems => Some(String::from_str("items/usable_items")),
            DatDescriptor::Weapons => Some(String::from_str("items/weapons")),
            DatDescriptor::VouchersAndSlips => Some(String::from_str("items/vouchers_and_slips")),
            DatDescriptor::Monipulator => Some(String::from_str("items/monipulator")),
            DatDescriptor::Instincts => Some(String::from_str("items/instincts")),
            DatDescriptor::MonsterSkillNames => Some(String::from_str("global_dialog/monster_skill_names")),
            DatDescriptor::StatusNamesDialog => Some(String::from_str("global_dialog/status_names_dialog")),
            DatDescriptor::EmoteMessages => Some(String::from_str("global_dialog/emote_messages")),
            DatDescriptor::SystemMessages1 => Some(String::from_str("global_dialog/system_messages1")),
            DatDescriptor::SystemMessages2 => Some(String::from_str("global_dialog/system_messages2")),
            DatDescriptor::SystemMessages3 => Some(String::from_str("global_dialog/system_messages3")),
            DatDescriptor::SystemMessages4 => Some(String::from_str("global_dialog/system_messages4")),
            DatDescriptor::UnityDialogs => Some(String::from_str("global_dialog/unity_dialogs")),
            DatDescriptor::ZoneData(z) => {
                proof { reveal_strlit("zones"); }
                let r = Self::get_zoned_file_name(zones, "zones", *z);
                r
            },
            DatDescriptor::EntityNames(z) => {
                proof { reveal_strlit("entity_names"); }
                let r = Self::get_zoned_file_name(zones, "entity_names", *z);
                r
            },
            DatDescriptor::Dialog(z) => {
                proof { reveal_strlit("dialog"); }
                let r = Self::get_zoned_file_name(zones, "dialog", *z);
                r
            },
            DatDescriptor::Dialog2(z) => {
                proof { reveal_strlit("dialog2"); }
                let r = Self::get_zoned_file_name(zones, "dialog2", *z);
                r
            },
            DatDescriptor::Events(z) => {
                proof { reveal_strlit("events"); }
                let r = Self::get_zoned_file_name(zones, "events", *z);
                r
            },
        }
    }

    /// The DAT that the descriptor converts: a named DAT, or the DAT of its
    /// zone in the table of its kind (`Dialog2` zones in the second dialog
    /// table).
    pub open spec fn dat_spec(self, m: DatIdMapping) -> Option<Dat> {
        match self {
            DatDescriptor::DataMenu => Some(m.data_menu),
            DatDescriptor::QuestsMissionsKeyItems => Some(m.quests_mission_keyitems),
            DatDescriptor::AbilityNames => Some(m.ability_names),
            DatDescriptor::AbilityDescriptions => Some(m.ability_descriptions),
            DatDescriptor::AreaNames => Some(m.area_names),
            DatDescriptor::AreaNamesShort => Some(m.area_names_short),
            DatDescriptor::AreaNamesAlt => Some(m.area_names_alt),
            DatDescriptor::Augments => Some(m.augments),
            DatDescriptor::BlueMagic => Some(m.blue_magic),
            DatDescriptor::CallMount => Some(m.call_mount),
            DatDescriptor::CharacterSelect => Some(m.character_select),
            DatDescriptor::ChatFilterTypes => Some(m.chat_filter_types),
            DatDescriptor::ChocoboNames => Some(m.chocobo_names),
            DatDescriptor::CommandUsage => Some(m.command_usage),
            DatDescriptor::DayNames => Some(m.day_names),
            DatDescriptor::Directions => Some(m.directions),
            DatDescriptor::EinherjarChambers => Some(m.einherjar_chambers),
            DatDescriptor::Emotes => Some(m.emotes),
            DatDescriptor::EquipmentLocations => Some(m.equipment_locations),
            DatDescriptor::EquipmentLocationsAlt => Some(m.equipment_locations_alt),
            DatDescriptor::ErrorMessages => Some(m.error_messages),
            DatDescriptor::IngameMessages1 => Some(m.ingame_messages_1),
            DatDescriptor::IngameMessages2 => Some(m.ingame_messages_2),
            DatDescriptor::JobNames => Some(m.job_names),
            DatDescriptor::JobNamesShort => Some(m.job_names_short),
            DatDescriptor::JobPointBonuses => Some(m.job_point_bonuses),
            DatDescriptor::JobPointGifts => Some(m.job_point_gifts),
            DatDescriptor::KeyItems => Some(m.key_items),
            DatDescriptor::MenuItemsDescription => Some(m.menu_items_description),
            DatDescriptor::MenuItemsText => Some(m.menu_items_text),
            DatDescriptor::Merits => Some(m.merits),
            DatDescriptor::MissionsAcp => Some(m.missions_acp),
            DatDescriptor::MissionsAmke => Some(m.missions_amke),
            DatDescriptor::MissionsAsa => Some(m.missions_asa),
            DatDescriptor::MissionsAssault => Some(m.missions_assault),
            DatDescriptor::MissionsBastok => Some(m.missions_bastok),
            DatDescriptor::MissionsCampaign => Some(m.missions_campaign),
            DatDescriptor::MissionsCop => Some(m.missions_cop),
            DatDescriptor::MissionsRov => Some(m.missions_rov),
            DatDescriptor::MissionsSandoria => Some(m.missions_sandoria),
            DatDescriptor::MissionsSoa => Some(m.missions_soa),
            DatDescriptor::MissionsToau => Some(m.missions_toau),
            DatDescriptor::MissionsWindurst => Some(m.missions_windurst),
            DatDescriptor::MissionsWotg => Some(m.missions_wotg),
            DatDescriptor::MissionsZilart => Some(m.missions_zilart),
            DatDescriptor::MoblinMazeMongers => Some(m.moblin_maze_mongers),
            DatDescriptor::Modifiers => Some(m.modifiers),
            DatDescriptor::MonsterFamilies => Some(m.monster_families),
            DatDescriptor::MoonPhases => Some(m.moon_phases),
            DatDescriptor::PankrationNames => Some(m.pankration_names),
            DatDescriptor::PolMessages => Some(m.pol_messages),
            DatDescriptor::QuestsAbyssea => Some(m.quests_abyssea),
            DatDescriptor::QuestsBastok => Some(m.quests_bastok),
            DatDescriptor::QuestsCoalition => Some(m.quests_coalition),
            DatDescriptor::QuestsJeuno => Some(m.quests_jeuno),
            DatDescriptor::QuestsOther => Some(m.quests_other),
            DatDescriptor::QuestsOutlands => Some(m.quests_outlands),
            DatDescriptor::QuestsSandoria => Some(m.quests_sandoria),
            DatDescriptor::QuestsSoa => Some(m.quests_soa),
            DatDescriptor::QuestsToau => Some(m.quests_toau),
            DatDescriptor::QuestsWindurst => Some(m.quests_windurst),
            DatDescriptor::QuestsWotg => Some(m.quests_wotg),
            DatDescriptor::RaceNames => Some(m.race_names),
            DatDescriptor::RegionNames => Some(m.region_names),
            DatDescriptor::ServerNames => Some(m.server_names),
            DatDescriptor::SpellNames => Some(m.spell_names),
            DatDescriptor::SpellDescriptions => Some(m.spell_descriptions),
            DatDescriptor::StatusInfo => Some(m.status_info),
            DatDescriptor::StatusNames => Some(m.status_names),
            DatDescriptor::TimeAndPronouns => Some(m.time_and_pronouns),
            DatDescriptor::Titles => Some(m.titles),
            DatDescriptor::TrustMessages => Some(m.trust_messages),
            DatDescriptor::Misc1 => Some(m.misc1),
            DatDescriptor::Misc2 => Some(m.misc2),
            DatDescriptor::WeatherTypes => Some(m.weather_types),
            DatDescriptor::Armor => Some(m.armor),
            DatDescriptor::Armor2 => Some(m.armor2),
            DatDescriptor::Currency => Some(m.currency),
            DatDescriptor::GeneralItems => Some(m.general_items),
            DatDescriptor::GeneralItems2 => Some(m.general_items2),
            DatDescriptor::PuppetItems => Some(m.puppet_items),
            DatDescriptor::UsableItems => Some(m.usable_items),
            DatDescriptor::Weapons => Some(m.weapons),
            DatDescriptor::VouchersAndSlips => Some(m.vouchers_and_slips),
            DatDescriptor::Monipulator => Some(m.monipulator),
            DatDescriptor::Instincts => Some(m.instincts),
            DatDescriptor::MonsterSkillNames => Some(m.monster_skill_names),
            DatDescriptor::StatusNamesDialog => Some(m.status_names_dialog),
            DatDescriptor::EmoteMessages => Some(m.emote_messages),
            DatDescriptor::SystemMessages1 => Some(m.system_messages_1),
            DatDescriptor::SystemMessages2 => Some(m.system_messages_2),
            DatDescriptor::SystemMessages3 => Some(m.system_messages_3),
            DatDescriptor::SystemMessages4 => Some(m.system_messages_4),
            DatDescriptor::UnityDialogs => Some(m.unity_dialogs),
            DatDescriptor::ZoneData(z) => match zone_lookup(m.zone_data.ranges@, z) {
                Some(id) => Some(Dat { id, format: m.zone_data.format }),
                None => None,
            },
            DatDescriptor::EntityNames(z) => match zone_lookup(m.entities.ranges@, z) {
                Some(id) => Some(Dat { id, format: m.entities.format }),
                None => None,
            },
            DatDescriptor::Dialog(z) => match zone_lookup(m.dialog.ranges@, z) {
                Some(id) => Some(Dat { id, format: m.dialog.format }),
                None => None,
            },
            DatDescriptor::Dialog2(z) => match zone_lookup(m.dialog2.ranges@, z) {
                Some(id) => Some(Dat { id, format: m.dialog2.format }),
                None => None,
            },
            DatDescriptor::Events(z) => match zone_lookup(m.events.ranges@, z) {
                Some(id) => Some(Dat { id, format: m.events.format }),
                None => None,
            },
        }
    }

    /// The DAT that the descriptor converts, if the mapping has it.
    pub fn dat(&self, m: &DatIdMapping) -> (r: Option<Dat>)
        ensures
            r == self.dat_spec(*m),
    {
        match self {
            DatDescriptor::DataMenu => Some(m.data_menu),
            DatDescriptor::QuestsMissionsKeyItems => Some(m.quests_mission_keyitems),
            DatDescriptor::AbilityNames => Some(m.ability_names),
            DatDescriptor::AbilityDescriptions => Some(m.ability_descriptions),
            DatDescriptor::AreaNames => Some(m.area_names),
            DatDescriptor::AreaNamesShort => Some(m.area_names_short),
            DatDescriptor::AreaNamesAlt => Some(m.area_names_alt),
            DatDescriptor::Augments => Some(m.augments),
            DatDescriptor::BlueMagic => Some(m.blue_magic),
            DatDescriptor::CallMount => Some(m.call_mount),
            DatDescriptor::CharacterSelect => Some(m.character_select),
            DatDescriptor::ChatFilterTypes => Some(m.chat_filter_types),
            DatDescriptor::ChocoboNames => Some(m.chocobo_names),
            DatDescriptor::CommandUsage => Some(m.command_usage),
            DatDescriptor::DayNames => Some(m.day_names),
            DatDescriptor::Directions => Some(m.directions),
            DatDescriptor::EinherjarChambers => Some(m.einherjar_chambers),
            DatDescriptor::Emotes => Some(m.emotes),
            DatDescriptor::EquipmentLocations => Some(m.equipment_locations),
            DatDescriptor::EquipmentLocationsAlt => Some(m.equipment_locations_alt),
            DatDescriptor::ErrorMessages => Some(m.error_messages),
            DatDescriptor::IngameMessages1 => Some(m.ingame_messages_1),
            DatDescriptor::IngameMessages2 => Some(m.ingame_messages_2),
            DatDescriptor::JobNames => Some(m.job_names),
            DatDescriptor::JobNamesShort => Some(m.job_names_short),
            DatDescriptor::JobPointBonuses => Some(m.job_point_bonuses),
            DatDescriptor::JobPointGifts => Some(m.job_point_gifts),
            DatDescriptor::KeyItems => Some(m.key_items),
            DatDescriptor::MenuItemsDescription => Some(m.menu_items_description),
            DatDescriptor::MenuItemsText => Some(m.menu_items_text),
            DatDescriptor::Merits => Some(m.merits),
            DatDescriptor::MissionsAcp => Some(m.missions_acp),
            DatDescriptor::MissionsAmke => Some(m.missions_amke),
            DatDescriptor::MissionsAsa => Some(m.missions_asa),
            DatDescriptor::MissionsAssault => Some(m.missions_assault),
            DatDescriptor::MissionsBastok => Some(m.missions_bastok),
            DatDescriptor::MissionsCampaign => Some(m.missions_campaign),
            DatDescriptor::MissionsCop => Some(m.missions_cop),
            DatDescriptor::MissionsRov => Some(m.missions_rov),
            DatDescriptor::MissionsSandoria => Some(m.missions_sandoria),
            DatDescriptor::MissionsSoa => Some(m.missions_soa),
            DatDescriptor::MissionsToau => Some(m.missions_toau),
            DatDescriptor::MissionsWindurst => Some(m.missions_windurst),
            DatDescriptor::MissionsWotg => Some(m.missions_wotg),
            DatDescriptor::MissionsZilart => Some(m.missions_zilart),
            DatDescriptor::MoblinMazeMongers => Some(m.moblin_maze_mongers),
            DatDescriptor::Modifiers => Some(m.modifiers),
            DatDescriptor::MonsterFamilies => Some(m.monster_families),
            DatDescriptor::MoonPhases => Some(m.moon_phases),
            DatDescriptor::PankrationNames => Some(m.pankration_names),
            DatDescriptor::PolMessages => Some(m.pol_messages),
            DatDescriptor::QuestsAbyssea => Some(m.quests_abyssea),
            DatDescriptor::QuestsBastok => Some(m.quests_bastok),
            DatDescriptor::QuestsCoalition => Some(m.quests_coalition),
            DatDescriptor::QuestsJeuno => Some(m.quests_jeuno),
            DatDescriptor::QuestsOther => Some(m.quests_other),
            DatDescriptor::QuestsOutlands => Some(m.quests_outlands),
            DatDescriptor::QuestsSandoria => Some(m.quests_sandoria),
            DatDescriptor::QuestsSoa => Some(m.quests_soa),
            DatDescriptor::QuestsToau => Some(m.quests_toau),
            DatDescriptor::QuestsWindurst => Some(m.quests_windurst),
            DatDescriptor::QuestsWotg => Some(m.quests_wotg),
            DatDescriptor::RaceNames => Some(m.race_names),
            DatDescriptor::RegionNames => Some(m.region_names),
            DatDescriptor::ServerNames => Some(m.server_names),
            DatDescriptor::SpellNames => Some(m.spell_names),
            DatDescriptor::SpellDescriptions => Some(m.spell_descriptions),
            DatDescriptor::StatusInfo => Some(m.status_info),
            DatDescriptor::StatusNames => Some(m.status_names),
            DatDescriptor::TimeAndPronouns => Some(m.time_and_pronouns),
            DatDescriptor::Titles => Some(m.titles),
            DatDescriptor::TrustMessages => Some(m.trust_messages),
            DatDescriptor::Misc1 => Some(m.misc1),
            DatDescriptor::Misc2 => Some(m.misc2),
            DatDescriptor::WeatherTypes => Some(m.weather_types),
            DatDescriptor::Armor => Some(m.armor),
            DatDescriptor::Armor2 => Some(m.armor2),
            DatDescriptor::Currency => Some(m.currency),
            DatDescriptor::GeneralItems => Some(m.general_items),
            DatDescriptor::GeneralItems2 => Some(m.general_items2),
            DatDescriptor::PuppetItems => Some(m.puppet_items),
            DatDescriptor::UsableItems => Some(m.usable_items),
            DatDescriptor::Weapons => Some(m.weapons),
            DatDescriptor::VouchersAndSlips => Some(m.vouchers_and_slips),
            DatDescriptor::Monipulator => Some(m.monipulator),
            DatDescriptor::Instincts => Some(m.instincts),
            DatDescriptor::MonsterSkillNames => Some(m.monster_skill_names),
            DatDescriptor::StatusNamesDialog => Some(m.status_names_dialog),
            DatDescriptor::EmoteMessages => Some(m.emote_messages),
            DatDescriptor::SystemMessages1 => Some(m.system_messages_1),
            DatDescriptor::SystemMessages2 => Some(m.system_messages_2),
            DatDescriptor::SystemMessages3 => Some(m.system_messages_3),
            DatDescriptor::SystemMessages4 => Some(m.system_messages_4),
            DatDescriptor::UnityDialogs => Some(m.unity_dialogs),
            DatDescriptor::ZoneData(z) => m.zone_data.get(*z),
            DatDescriptor::EntityNames(z) => m.entities.get(*z),
            DatDescriptor::Dialog(z) => m.dialog.get(*z),
            DatDescriptor::Dialog2(z) => m.dialog2.get(*z),
            DatDescriptor::Events(z) => m.events.get(*z),
        }
    }
}

} // verus!

verus! {

/// The item DAT whose YAML file is `items/<name>`.
pub open spec fn item_descriptor(name: Seq<char>) -> Option<DatDescriptor> {
    if name == "armor"@ {
        Some(DatDescriptor::Armor)
    } else if name == "armor2"@ {
        Some(DatDescriptor::Armor2)
    } else if name == "currency"@ {
        Some(DatDescriptor::Currency)
    } else if name == "general_items"@ {
        Some(DatDescriptor::GeneralItems)
    } else if name == "general_items2"@ {
        Some(DatDescriptor::GeneralItems2)
    } else if name == "puppet_items"@ {
        Some(DatDescriptor::PuppetItems)
    } else if name == "usable_items"@ {
        Some(DatDescriptor::UsableItems)
    } else if name == "weapons"@ {
        Some(DatDescriptor::Weapons)
    } else if name == "vouchers_and_slips"@ {
        Some(DatDescriptor::VouchersAndSlips)
    } else if name == "monipulator"@ {
        Some(DatDescriptor::Monipulator)
    } else if name == "instincts"@ {
        Some(DatDescriptor::Instincts)
    } else {
        None
    }
}

fn item_descriptor_exec(name: &str) -> (r: Option<DatDescriptor>)
    ensures
        r == item_descriptor(name@),
{
    if str_equal(name, "armor") {
        return Some(DatDescriptor::Armor);
    }
    if str_equal(name, "armor2") {
        return Some(DatDescriptor::Armor2);
    }
    if str_equal(name, "currency") {
        return Some(DatDescriptor::Currency);
    }
    if str_equal(name, "general_items") {
        return Some(DatDescriptor::GeneralItems);
    }
    if str_equal(name, "general_items2") {
        return Some(DatDescriptor::GeneralItems2);
    }
    if str_equal(name, "puppet_items") {
        return Some(DatDescriptor::PuppetItems);
    }
    if str_equal(name, "usable_items") {
        return Some(DatDescriptor::UsableItems);
    }
    if str_equal(name, "weapons") {
        return Some(DatDescriptor::Weapons);
    }
    if str_equal(name, "vouchers_and_slips") {
        return Some(DatDescriptor::VouchersAndSlips);
    }
    if str_equal(name, "monipulator") {
        return Some(DatDescriptor::Monipulator);
    }
    if str_equal(name, "instincts") {
        return Some(DatDescriptor::Instincts);
    }
    None
}

/// The global dialog DAT whose YAML file is `global_dialog/<name>`.
pub open spec fn global_dialog_descriptor(name: Seq<char>) -> Option<DatDescriptor> {
    if name == "monster_skill_names"@ {
        Some(DatDescriptor::MonsterSkillNames)
    } else if name == "status_names_dialog"@ {
        Some(DatDescriptor::StatusNamesDialog)
    } else if name == "emote_messages"@ {
        Some(DatDescriptor::EmoteMessages)
    } else if name == "system_messages1"@ {
        Some(DatDescriptor::SystemMessages1)
    } else if name == "system_messages2"@ {
        Some(DatDescriptor::SystemMessages2)
    } else if name == "system_messages3"@ {
        Some(DatDescriptor::SystemMessages3)
    } else if name == "system_messages4"@ {
        Some(DatDescriptor::SystemMessages4)
    } else if name == "unity_dialogs"@ {
        Some(DatDescriptor::UnityDialogs)
    } else {
        None
    }
}

fn global_dialog_descriptor_exec(name: &str) -> (r: Option<DatDescriptor>)
    ensures
        r == global_dialog_descriptor(name@),
{
    if str_equal(name, "monster_skill_names") {
        return Some(DatDescriptor::MonsterSkillNames);
    }
    if str_equal(name, "status_names_dialog") {
        return Some(DatDescriptor::StatusNamesDialog);
    }
    if str_equal(name, "emote_messages") {
        return Some(DatDescriptor::EmoteMessages);
    }
    if str_equal(name, "system_messages1") {
        return Some(DatDescriptor::SystemMessages1);
    }
    if str_equal(name, "system_messages2") {
        return Some(DatDescriptor::SystemMessages2);
    }
    if str_equal(name, "system_messages3") {
        return Some(DatDescriptor::SystemMessages3);
    }
    if str_equal(name, "system_messages4") {
        return Some(DatDescriptor::SystemMessages4);
    }
    if str_equal(name, "unity_dialogs") {
        return Some(DatDescriptor::UnityDialogs);
    }
    None
}

/// The DAT whose YAML file is `<name>` in the raw data directory itself.
pub open spec fn root_descriptor(name: Seq<char>) -> Option<DatDescriptor> {
    if name == "ability_names"@ {
        Some(DatDescriptor::AbilityNames)
    } else if name == "ability_descriptions"@ {
        Some(DatDescriptor::AbilityDescriptions)
    } else if name == "area_names"@ {
        Some(DatDescriptor::AreaNames)
    } else if name == "area_names_short"@ {
        Some(DatDescriptor::AreaNamesShort)
    } else if name == "area_names_alt"@ {
        Some(DatDescriptor::AreaNamesAlt)
    } else if name == "augments"@ {
        Some(DatDescriptor::Augments)
    } else if name == "blue_magic"@ {
        Some(DatDescriptor::BlueMagic)
    } else if name == "call_mount"@ {
        Some(DatDescriptor::CallMount)
    } else if name == "character_select"@ {
        Some(DatDescriptor::CharacterSelect)
    } else if name == "chat_filter_types"@ {
        Some(DatDescriptor::ChatFilterTypes)
    } else if name == "chocobo_names"@ {
        Some(DatDescriptor::ChocoboNames)
    } else if name == "command_usage"@ {
        Some(DatDescriptor::CommandUsage)
    } else if name == "einherjar_chambers"@ {
        Some(DatDescriptor::EinherjarChambers)
    } else if name == "emotes"@ {
        Some(DatDescriptor::Emotes)
    } else if name == "day_names"@ {
        Some(DatDescriptor::DayNames)
    } else if name == "directions"@ {
        Some(DatDescriptor::Directions)
    } else if name == "equipment_locations"@ {
        Some(DatDescriptor::EquipmentLocations)
    } else if name == "equipment_locations_alt"@ {
        Some(DatDescriptor::EquipmentLocationsAlt)
    } else if name == "error_messages"@ {
        Some(DatDescriptor::ErrorMessages)
    } else if name == "ingame_messages1"@ {
        Some(DatDescriptor::IngameMessages1)
    } else if name == "ingame_messages2"@ {
        Some(DatDescriptor::IngameMessages2)
    } else if name == "job_names"@ {
        Some(DatDescriptor::JobNames)
    } else if name == "job_names_short"@ {
        Some(DatDescriptor::JobNamesShort)
    } else if name == "job_point_bonuses"@ {
        Some(DatDescriptor::JobPointBonuses)
    } else if name == "job_point_gifts"@ {
        Some(DatDescriptor::JobPointGifts)
    } else if name == "key_items"@ {
        Some(DatDescriptor::KeyItems)
    } else if name == "data_menu"@ {
        Some(DatDescriptor::DataMenu)
    } else if name == "quests_mission_keyitems"@ {
        Some(DatDescriptor::QuestsMissionsKeyItems)
    } else if name == "menu_items_description"@ {
        Some(DatDescriptor::MenuItemsDescription)
    } else if name == "menu_items_text"@ {
        Some(DatDescriptor::MenuItemsText)
    } else if name == "merits"@ {
        Some(DatDescriptor::Merits)
    } else if name == "missions_acp"@ {
        Some(DatDescriptor::MissionsAcp)
    } else if name == "missions_amke"@ {
        Some(DatDescriptor::MissionsAmke)
    } else if name == "missions_asa"@ {
        Some(DatDescriptor::MissionsAsa)
    } else if name == "missions_assault"@ {
        Some(DatDescriptor::MissionsAssault)
    } else if name == "missions_bastok"@ {
        Some(DatDescriptor::MissionsBastok)
    } else if name == "missions_campaign"@ {
        Some(DatDescriptor::MissionsCampaign)
    } else if name == "missions_cop"@ {
        Some(DatDescriptor::MissionsCop)
    } else if name == "missions_rov"@ {
        Some(DatDescriptor::MissionsRov)
    } else if name == "missions_sandoria"@ {
        Some(DatDescriptor::MissionsSandoria)
    } else if name == "missions_soa"@ {
        Some(DatDescriptor::MissionsSoa)
    } else if name == "missions_toau"@ {
        Some(DatDescriptor::MissionsToau)
    } else if name == "missions_windurst"@ {
        Some(DatDescriptor::MissionsWindurst)
    } else if name == "missions_wotg"@ {
        Some(DatDescriptor::MissionsWotg)
    } else if name == "missions_zilart"@ {
        Some(DatDescriptor::MissionsZilart)
    } else if name == "moblin_maze_mongers"@ {
        Some(DatDescriptor::MoblinMazeMongers)
    } else if name == "modifiers"@ {
        Some(DatDescriptor::Modifiers)
    } else if name == "monster_families"@ {
        Some(DatDescriptor::MonsterFamilies)
    } else if name == "moon_phases"@ {
        Some(DatDescriptor::MoonPhases)
    } else if name == "pankration_names"@ {
        Some(DatDescriptor::PankrationNames)
    } else if name == "quests_abyssea"@ {
        Some(DatDescriptor::QuestsAbyssea)
    } else if name == "quests_bastok"@ {
        Some(DatDescriptor::QuestsBastok)
    } else if name == "quests_coalition"@ {
        Some(DatDescriptor::QuestsCoalition)
    } else if name == "quests_jeuno"@ {
        Some(DatDescriptor::QuestsJeuno)
    } else if name == "quests_other"@ {
        Some(DatDescriptor::QuestsOther)
    } else if name == "quests_outlands"@ {
        Some(DatDescriptor::QuestsOutlands)
    } else if name == "quests_sandoria"@ {
        Some(DatDescriptor::QuestsSandoria)
    } else if name == "quests_soa"@ {
        Some(DatDescriptor::QuestsSoa)
    } else if name == "quests_toau"@ {
        Some(DatDescriptor::QuestsToau)
    } else if name == "quests_windurst"@ {
        Some(DatDescriptor::QuestsWindurst)
    } else if name == "quests_wotg"@ {
        Some(DatDescriptor::QuestsWotg)
    } else if name == "pol_messages"@ {
        Some(DatDescriptor::PolMessages)
    } else if name == "race_names"@ {
        Some(DatDescriptor::RaceNames)
    } else if name == "region_names"@ {
        Some(DatDescriptor::RegionNames)
    } else if name == "server_names"@ {
        Some(DatDescriptor::ServerNames)
    } else if name == "spell_names"@ {
        Some(DatDescriptor::SpellNames)
    } else if name == "spell_descriptions"@ {
        Some(DatDescriptor::SpellDescriptions)
    } else if name == "status_info"@ {
        Some(DatDescriptor::StatusInfo)
    } else if name == "status_names"@ {
        Some(DatDescriptor::StatusNames)
    } else if name == "time_and_pronouns"@ {
        Some(DatDescriptor::TimeAndPronouns)
    } else if name == "titles"@ {
        Some(DatDescriptor::Titles)
    } else if name == "trust_messages"@ {
        Some(DatDescriptor::TrustMessages)
    } else if name == "misc1"@ {
        Some(DatDescriptor::Misc1)
    } else if name == "misc2"@ {
        Some(DatDescriptor::Misc2)
    } else if name == "weather_types"@ {
        Some(DatDescriptor::WeatherTypes)
    } else {
        None
    }
}

fn root_descriptor_exec(name: &str) -> (r: Option<DatDescriptor>)
    ensures
        r == root_descriptor(name@),
{
    if str_equal(name, "ability_names") {
        return Some(DatDescriptor::AbilityNames);
    }
    if str_equal(name, "ability_descriptions") {
        return Some(DatDescriptor::AbilityDescriptions);
    }
    if str_equal(name, "area_names") {
        return Some(DatDescriptor::AreaNames);
    }
    if str_equal(name, "area_names_short") {
        return Some(DatDescriptor::AreaNamesShort);
    }
    if str_equal(name, "area_names_alt") {
        return Some(DatDescriptor::AreaNamesAlt);
    }
    if str_equal(name, "augments") {
        return Some(DatDescriptor::Augments);
    }
    if str_equal(name, "blue_magic") {
        return Some(DatDescriptor::BlueMagic);
    }
    if str_equal(name, "call_mount") {
        return Some(DatDescriptor::CallMount);
    }
    if str_equal(name, "character_select") {
        return Some(DatDescriptor::CharacterSelect);
    }
    if str_equal(name, "chat_filter_types") {
        return Some(DatDescriptor::ChatFilterTypes);
    }
    if str_equal(name, "chocobo_names") {
        return Some(DatDescriptor::ChocoboNames);
    }
    if str_equal(name, "command_usage") {
        return Some(DatDescriptor::CommandUsage);
    }
    if str_equal(name, "einherjar_chambers") {
        return Some(DatDescriptor::EinherjarChambers);
    }
    if str_equal(name, "emotes") {
        return Some(DatDescriptor::Emotes);
    }
    if str_equal(name, "day_names") {
        return Some(DatDescriptor::DayNames);
    }
    if str_equal(name, "directions") {
        return Some(DatDescriptor::Directions);
    }
    if str_equal(name, "equipment_locations") {
        return Some(DatDescriptor::EquipmentLocations);
    }
    if str_equal(name, "equipment_locations_alt") {
        return Some(DatDescriptor::EquipmentLocationsAlt);
    }
    if str_equal(name, "error_messages") {
        return Some(DatDescriptor::ErrorMessages);
    }
    if str_equal(name, "ingame_messages1") {
        return Some(DatDescriptor::IngameMessages1);
    }
    if str_equal(name, "ingame_messages2") {
        return Some(DatDescriptor::IngameMessages2);
    }
    if str_equal(name, "job_names") {
        return Some(DatDescriptor::JobNames);
    }
    if str_equal(name, "job_names_short") {
        return Some(DatDescriptor::JobNamesShort);
    }
    if str_equal(name, "job_point_bonuses") {
        return Some(DatDescriptor::JobPointBonuses);
    }
    if str_equal(name, "job_point_gifts") {
        return Some(DatDescriptor::JobPointGifts);
    }
    if str_equal(name, "key_items") {
        return Some(DatDescriptor::KeyItems);
    }
    if str_equal(name, "data_menu") {
        return Some(DatDescriptor::DataMenu);
    }
    if str_equal(name, "quests_mission_keyitems") {
        return Some(DatDescriptor::QuestsMissionsKeyItems);
    }
    if str_equal(name, "menu_items_description") {
        return Some(DatDescriptor::MenuItemsDescription);
    }
    if str_equal(name, "menu_items_text") {
        return Some(DatDescriptor::MenuItemsText);
    }
    if str_equal(name, "merits") {
        return Some(DatDescriptor::Merits);
    }
    if str_equal(name, "missions_acp") {
        return Some(DatDescriptor::MissionsAcp);
    }
    if str_equal(name, "missions_amke") {
        return Some(DatDescriptor::MissionsAmke);
    }
    if str_equal(name, "missions_asa") {
        return Some(DatDescriptor::MissionsAsa);
    }
    if str_equal(name, "missions_assault") {
        return Some(DatDescriptor::MissionsAssault);
    }
    if str_equal(name, "missions_bastok") {
        return Some(DatDescriptor::MissionsBastok);
    }
    if str_equal(name, "missions_campaign") {
        return Some(DatDescriptor::MissionsCampaign);
    }
    if str_equal(name, "missions_cop") {
        return Some(DatDescriptor::MissionsCop);
    }
    if str_equal(name, "missions_rov") {
        return Some(DatDescriptor::MissionsRov);
    }
    if str_equal(name, "missions_sandoria") {
        return Some(DatDescriptor::MissionsSandoria);
    }
    if str_equal(name, "missions_soa") {
        return Some(DatDescriptor::MissionsSoa);
    }
    if str_equal(name, "missions_toau") {
        return Some(DatDescriptor::MissionsToau);
    }
    if str_equal(name, "missions_windurst") {
        return Some(DatDescriptor::MissionsWindurst);
    }
    if str_equal(name, "missions_wotg") {
        return Some(DatDescriptor::MissionsWotg);
    }
    if str_equal(name, "missions_zilart") {
        return Some(DatDescriptor::MissionsZilart);
    }
    if str_equal(name, "moblin_maze_mongers") {
        return Some(DatDescriptor::MoblinMazeMongers);
    }
    if str_equal(name, "modifiers") {
        return Some(DatDescriptor::Modifiers);
    }
    if str_equal(name, "monster_families") {
        return Some(DatDescriptor::MonsterFamilies);
    }
    if str_equal(name, "moon_phases") {
        return Some(DatDescriptor::MoonPhases);
    }
    if str_equal(name, "pankration_names") {
        return Some(DatDescriptor::PankrationNames);
    }
    if str_equal(name, "quests_abyssea") {
        return Some(DatDescriptor::QuestsAbyssea);
    }
    if str_equal(name, "quests_bastok") {
        return Some(DatDescriptor::QuestsBastok);
    }
    if str_equal(name, "quests_coalition") {
        return Some(DatDescriptor::QuestsCoalition);
    }
    if str_equal(name, "quests_jeuno") {
        return Some(DatDescriptor::QuestsJeuno);
    }
    if str_equal(name, "quests_other") {
        return Some(DatDescriptor::QuestsOther);
    }
    if str_equal(name, "quests_outlands") {
        return Some(DatDescriptor::QuestsOutlands);
    }
    if str_equal(name, "quests_sandoria") {
        return Some(DatDescriptor::QuestsSandoria);
    }
    if str_equal(name, "quests_soa") {
        return Some(DatDescriptor::QuestsSoa);
    }
    if str_equal(name, "quests_toau") {
        return Some(DatDescriptor::QuestsToau);
    }
    if str_equal(name, "quests_windurst") {
        return Some(DatDescriptor::QuestsWindurst);
    }
    if str_equal(name, "quests_wotg") {
        return Some(DatDescriptor::QuestsWotg);
    }
    if str_equal(name, "pol_messages") {
        return Some(DatDescriptor::PolMessages);
    }
    if str_equal(name, "race_names") {
        return Some(DatDescriptor::RaceNames);
    }
    if str_equal(name, "region_names") {
        return Some(DatDescriptor::RegionNames);
    }
    if str_equal(name, "server_names") {
        return Some(DatDescriptor::ServerNames);
    }
    if str_equal(name, "spell_names") {
        return Some(DatDescriptor::SpellNames);
    }
    if str_equal(name, "spell_descriptions") {
        return Some(DatDescriptor::SpellDescriptions);
    }
    if str_equal(name, "status_info") {
        return Some(DatDescriptor::StatusInfo);
    }
    if str_equal(name, "status_names") {
        return Some(DatDescriptor::StatusNames);
    }
    if str_equal(name, "time_and_pronouns") {
        return Some(DatDescriptor::TimeAndPronouns);
    }
    if str_equal(name, "titles") {
        return Some(DatDescriptor::Titles);
    }
    if str_equal(name, "trust_messages") {
        return Some(DatDescriptor::TrustMessages);
    }
    if str_equal(name, "misc1") {
        return Some(DatDescriptor::Misc1);
    }
    if str_equal(name, "misc2") {
        return Some(DatDescriptor::Misc2);
    }
    if str_equal(name, "weather_types") {
        return Some(DatDescriptor::WeatherTypes);
    }
    None
}

/// `s` without every trailing `.yml`.
pub open spec fn trim_yml(s: Seq<char>) -> Seq<char>
    decreases s.len(),
{
    if s.len() >= 4 && s.subrange(s.len() - 4, s.len() as int) == seq!['.', 'y', 'm', 'l'] {
        trim_yml(s.subrange(0, s.len() - 4))
    } else {
        s
    }
}

fn trim_yml_exec(s: &str) -> (r: &str)
    ensures
        r@ == trim_yml(s@),
{
    let mut cur = s;
    while cur.unicode_len() >= 4
        invariant
            trim_yml(s@) == trim_yml(cur@),
        decreases cur@.len(),
    {
        let n = cur.unicode_len();
        if !(cur.get_char(n - 4) == '.' && cur.get_char(n - 3) == 'y' && cur.get_char(n - 2) == 'm'
            && cur.get_char(n - 1) == 'l') {
            proof {
                if cur@.subrange(n - 4, n as int) == seq!['.', 'y', 'm', 'l'] {
                    assert(cur@.subrange(n - 4, n as int)[0] == cur@[n - 4]);
                    assert(cur@.subrange(n - 4, n as int)[1] == cur@[n - 3]);
                    assert(cur@.subrange(n - 4, n as int)[2] == cur@[n - 2]);
                    assert(cur@.subrange(n - 4, n as int)[3] == cur@[n - 1]);
                }
            }
            return cur;
        }
        assert(cur@.subrange(n - 4, n as int) =~= seq!['.', 'y', 'm', 'l']);
        cur = cur.substring_char(0, n - 4);
    }
    cur
}

/// The name of the component `seg` of `s`.
pub open spec fn seg_chars(s: Seq<char>, seg: (int, int)) -> Seq<char> {
    s.subrange(seg.0, seg.1)
}

/// Whether a component names a directory entry (it is neither `.` nor `..`).
pub open spec fn is_named(c: Seq<char>) -> bool {
    c != seq!['.'] && c != seq!['.', '.']
}

/// The DAT of file `file` in directory `dir`: per-zone directories look the
/// zone up by its file name, `items` and `global_dialog` have tables of their own.
pub open spec fn dir_lookup(dir: Seq<char>, file: Seq<char>, zones: Seq<(u16, String)>) -> Option<DatDescriptor> {
    if dir == "zones"@ {
        match zone_id_of(zones, file) {
            Some(z) => Some(DatDescriptor::ZoneData(z)),
            None => None,
        }
    } else if dir == "entity_names"@ {
        match zone_id_of(zones, file) {
            Some(z) => Some(DatDescriptor::EntityNames(z)),
            None => None,
        }
    } else if dir == "dialog"@ {
        match zone_id_of(zones, file) {
            Some(z) => Some(DatDescriptor::Dialog(z)),
            None => None,
        }
    } else if dir == "dialog2"@ {
        match zone_id_of(zones, file) {
            Some(z) => Some(DatDescriptor::Dialog2(z)),
            None => None,
        }
    } else if dir == "events"@ {
        match zone_id_of(zones, file) {
            Some(z) => Some(DatDescriptor::Events(z)),
            None => None,
        }
    } else if dir == "items"@ {
        item_descriptor(file)
    } else if dir == "global_dialog"@ {
        global_dialog_descriptor(file)
    } else {
        None
    }
}

/// The DAT whose YAML file lies at `s`, relative to the raw data directory:
/// the file name, without its `.yml` extensions, is looked up in the table of
/// its directory (the last directory of the path, if it has a name), or in
/// that of the raw data directory itself; per-zone directories look the
/// zone up by its file name.
pub open spec fn descriptor_from_path_spec(s: Seq<char>, zones: Seq<(u16, String)>) -> Option<DatDescriptor> {
    let segs = segments(s);
    if segs.len() == 0 || !is_named(seg_chars(s, segs.last())) {
        None
    } else {
        let file = trim_yml(seg_chars(s, segs.last()));
        if segs.len() >= 2 && is_named(seg_chars(s, segs[segs.len() - 2])) {
            dir_lookup(seg_chars(s, segs[segs.len() - 2]), file, zones)
        } else {
            root_descriptor(file)
        }
    }
}

fn is_named_exec(c: &str) -> (r: bool)
    ensures
        r == is_named(c@),
{
    let n = c.unicode_len();
    if n == 1 && c.get_char(0) == '.' {
        assert(c@ =~= seq!['.']);
        return false;
    }
    if n == 2 && c.get_char(0) == '.' && c.get_char(1) == '.' {
        assert(c@ =~= seq!['.', '.']);
        return false;
    }
    proof {
        if c@ == seq!['.'] {
            assert(c@[0] == '.');
        }
        if c@ == seq!['.', '.'] {
            assert(c@[0] == '.' && c@[1] == '.');
        }
    }
    true
}

impl DatDescriptor {
    /// The DAT whose YAML file lies at `path`, relative to the raw data
    /// directory.
    pub fn from_path(path: &str, zones: &ZoneNames) -> (r: Option<DatDescriptor>)
        ensures
            r == descriptor_from_path_spec(path@, zones.entries@),
    {
        let segs = scan_segments(path);
        let count = segs.len();
        if count == 0 {
            return None;
        }
        let (a, b) = segs[count - 1];
        let last = path.substring_char(a, b);
        if !is_named_exec(last) {
            return None;
        }
        let file = trim_yml_exec(last);
        if count >= 2 {
            let (c, d) = segs[count - 2];
            let dir = path.substring_char(c, d);
            if is_named_exec(dir) {
                proof {
                    reveal_strlit("zones");
                    reveal_strlit("entity_names");
                    reveal_strlit("dialog");
                    reveal_strlit("dialog2");
                    reveal_strlit("events");
                    reveal_strlit("items");
                    reveal_strlit("global_dialog");
                }
                if str_equal(dir, "zones") {
                    return match zones.id_of(file) {
                        Some(z) => Some(DatDescriptor::ZoneData(z)),
                        None => None,
                    };
                } else if str_equal(dir, "entity_names") {
                    return match zones.id_of(file) {
                        Some(z) => Some(DatDescriptor::EntityNames(z)),
                        None => None,
                    };
                } else if str_equal(dir, "dialog") {
                    return match zones.id_of(file) {
                        Some(z) => Some(DatDescriptor::Dialog(z)),
                        None => None,
                    };
                } else if str_equal(dir, "dialog2") {
                    return match zones.id_of(file) {
                        Some(z) => Some(DatDescriptor::Dialog2(z)),
                        None => None,
                    };
                } else if str_equal(dir, "events") {
                    return match zones.id_of(file) {
                        Some(z) => Some(DatDescriptor::Events(z)),
                        None => None,
                    };
                } else if str_equal(dir, "items") {
                    return item_descriptor_exec(file);
                } else if str_equal(dir, "global_dialog") {
                    return global_dialog_descriptor_exec(file);
                } else {
                    return None;
                }
            }
        }
        root_descriptor_exec(file)
    }

    /// What converting the DAT to YAML involves: the DAT and the YAML file;
    /// for a per-zone DAT, an error when its zone has no file name, or else no
    /// DAT.
    pub fn dat_to_yaml(&self, mapping: &DatIdMapping, zones: &ZoneNames) -> (r: Result<DatConversion, ConversionError>)
        ensures
            match r {
                Ok(c) => self.dat_spec(*mapping) == Some(c.dat) && (match self.relative_path_spec(zones.entries@) {
                    Some(p) => c.yaml_path@ == p + seq!['.', 'y', 'm', 'l'],
                    None => false,
                }),
                Err(e) => if self.relative_path_spec(zones.entries@) is None {
                    e == ConversionError::NoZoneName
                } else {
                    self.dat_spec(*mapping) is None && e == ConversionError::NoZoneDat
                },
            },
    {
        self.conversion(mapping, zones)
    }

    /// What converting the YAML back to the DAT involves: the same DAT and
    /// YAML file as the conversion to YAML.
    pub fn yaml_to_dat(&self, mapping: &DatIdMapping, zones: &ZoneNames) -> (r: Result<DatConversion, ConversionError>)
        ensures
            match r {
                Ok(c) => self.dat_spec(*mapping) == Some(c.dat) && (match self.relative_path_spec(zones.entries@) {
                    Some(p) => c.yaml_path@ == p + seq!['.', 'y', 'm', 'l'],
                    None => false,
                }),
                Err(e) => if self.relative_path_spec(zones.entries@) is None {
                    e == ConversionError::NoZoneName
                } else {
                    self.dat_spec(*mapping) is None && e == ConversionError::NoZoneDat
                },
            },
    {
        self.conversion(mapping, zones)
    }

    fn conversion(&self, mapping: &DatIdMapping, zones: &ZoneNames) -> (r: Result<DatConversion, ConversionError>)
        ensures
            match r {
                Ok(c) => self.dat_spec(*mapping) == Some(c.dat) && (match self.relative_path_spec(zones.entries@) {
                    Some(p) => c.yaml_path@ == p + seq!['.', 'y', 'm', 'l'],
                    None => false,
                }),
                Err(e) => if self.relative_path_spec(zones.entries@) is None {
                    e == ConversionError::NoZoneName
                } else {
                    self.dat_spec(*mapping) is None && e == ConversionError::NoZoneDat
                },
            },
    {
        let path = match self.get_relative_path(zones) {
            Some(p) => p,
            None => return Err(ConversionError::NoZoneName),
        };
        let dat = match self.dat(mapping) {
            Some(d) => d,
            None => return Err(ConversionError::NoZoneDat),
        };
        let mut yaml_path = path;
        proof {
            reveal_strlit(".yml");
        }
        yaml_path.append(".yml");
        Ok(DatConversion { dat, yaml_path })
    }
}

} // verus!

