use vstd::prelude::*;
use crate::audit::FormatKind;

verus! {

/// A DAT known by its table ID, with the format it holds.
#[derive(Clone, Copy, Debug, PartialEq, Eq, Structural)]
pub struct Dat {
    pub id: u32,
    pub format: FormatKind,
}

/// `count` zones from `first_zone` on, whose DATs have consecutive table IDs
/// from `first_id` on.
#[derive(Clone, Copy, Debug, PartialEq, Eq, Structural)]
pub struct ZoneRange {
    pub first_zone: u16,
    pub count: u16,
    pub first_id: u32,
}

/// The DATs of one kind, one per zone.
#[derive(Clone, Debug)]
pub struct DatByZone {
    pub format: FormatKind,
    pub ranges: Vec<ZoneRange>,
}

/// The table ID of zone `zone` in the first range that holds it.
pub open spec fn zone_lookup(ranges: Seq<ZoneRange>, zone: u16) -> Option<u32>
    decreases ranges.len(),
{
    if ranges.len() == 0 {
        None
    } else {
        let r = ranges[0];
        if r.first_zone <= zone < r.first_zone + r.count && r.first_id + (zone - r.first_zone) <= u32::MAX {
            Some((r.first_id + (zone - r.first_zone)) as u32)
        } else {
            zone_lookup(ranges.drop_first(), zone)
        }
    }
}

impl DatByZone {
    /// The DAT of zone `zone`, if the zone has one.
    pub fn get(&self, zone: u16) -> (r: Option<Dat>)
        ensures
            r == (match zone_lookup(self.ranges@, zone) {
                Some(id) => Some(Dat { id, format: self.format }),
                None => None,
            }),
    {
        let mut i: usize = 0;
        assert(self.ranges@.subrange(0, self.ranges@.len() as int) =~= self.ranges@);
        while i < self.ranges.len()
            invariant
                i <= self.ranges@.len(),
                zone_lookup(self.ranges@, zone) == zone_lookup(self.ranges@.subrange(i as int, self.ranges@.len() as int), zone),
            decreases self.ranges@.len() - i,
        {
            let r = self.ranges[i];
            let ghost rest = self.ranges@.subrange(i as int, self.ranges@.len() as int);
            assert(rest[0] == r);
            assert(rest.drop_first() =~= self.ranges@.subrange(i + 1, self.ranges@.len() as int));
            if r.first_zone <= zone && (zone as u32) < r.first_zone as u32 + r.count as u32
                && r.first_id as u64 + (zone - r.first_zone) as u64 <= 0xffff_ffff {
                return Some(Dat { id: r.first_id + (zone - r.first_zone) as u32, format: self.format });
            }
            i = i + 1;
        }
        None
    }
}

/// The table IDs of the client's DATs, by what they hold.
#[derive(Clone, Debug)]
pub struct DatIdMapping {
    pub zone_data: DatByZone,
    pub entities: DatByZone,
    pub dialog: DatByZone,
    pub dialog2: DatByZone,
    pub events: DatByZone,
    pub monster_skill_names: Dat,
    pub status_names_dialog: Dat,
    pub emote_messages: Dat,
    pub system_messages_1: Dat,
    pub system_messages_2: Dat,
    pub system_messages_3: Dat,
    pub system_messages_4: Dat,
    pub unity_dialogs: Dat,
    pub ability_names: Dat,
    pub ability_descriptions: Dat,
    pub area_names: Dat,
    pub area_names_short: Dat,
    pub area_names_alt: Dat,
    pub augments: Dat,
    pub blue_magic: Dat,
    pub call_mount: Dat,
    pub character_select: Dat,
    pub chat_filter_types: Dat,
    pub chocobo_names: Dat,
    pub command_usage: Dat,
    pub day_names: Dat,
    pub directions: Dat,
    pub einherjar_chambers: Dat,
    pub emotes: Dat,
    pub equipment_locations: Dat,
    pub equipment_locations_alt: Dat,
    pub error_messages: Dat,
    pub ingame_messages_1: Dat,
    pub ingame_messages_2: Dat,
    pub job_names: Dat,
    pub job_names_short: Dat,
    pub job_point_bonuses: Dat,
    pub job_point_gifts: Dat,
    pub key_items: Dat,
    pub menu_items_description: Dat,
    pub menu_items_text: Dat,
    pub merits: Dat,
    pub missions_acp: Dat,
    pub missions_amke: Dat,
    pub missions_asa: Dat,
    pub missions_assault: Dat,
    pub missions_bastok: Dat,
    pub missions_campaign: Dat,
    pub missions_cop: Dat,
    pub missions_rov: Dat,
    pub missions_sandoria: Dat,
    pub missions_soa: Dat,
    pub missions_toau: Dat,
    pub missions_windurst: Dat,
    pub missions_wotg: Dat,
    pub missions_zilart: Dat,
    pub moblin_maze_mongers: Dat,
    pub modifiers: Dat,
    pub monster_families: Dat,
    pub moon_phases: Dat,
    pub mount_names: Dat,
    pub pankration_names: Dat,
    pub pol_messages: Dat,
    pub quests_abyssea: Dat,
    pub quests_bastok: Dat,
    pub quests_coalition: Dat,
    pub quests_jeuno: Dat,
    pub quests_other: Dat,
    pub quests_outlands: Dat,
    pub quests_sandoria: Dat,
    pub quests_soa: Dat,
    pub quests_toau: Dat,
    pub quests_windurst: Dat,
    pub quests_wotg: Dat,
    pub race_names: Dat,
    pub region_names: Dat,
    pub server_names: Dat,
    pub spell_names: Dat,
    pub spell_descriptions: Dat,
    pub status_info: Dat,
    pub status_names: Dat,
    pub time_and_pronouns: Dat,
    pub titles: Dat,
    pub trust_messages: Dat,
    pub misc1: Dat,
    pub misc2: Dat,
    pub weather_types: Dat,
    pub armor: Dat,
    pub armor2: Dat,
    pub currency: Dat,
    pub general_items: Dat,
    pub general_items2: Dat,
    pub puppet_items: Dat,
    pub usable_items: Dat,
    pub weapons: Dat,
    pub vouchers_and_slips: Dat,
    pub monipulator: Dat,
    pub instincts: Dat,
    pub data_menu: Dat,
    pub quests_mission_keyitems: Dat,
}

/// Whether `m` holds the client's table IDs: the zone ranges of each
/// per-zone kind and the ID and format of every other DAT.
pub open spec fn is_client_mapping(m: DatIdMapping) -> bool {
    &&& m.zone_data.format == FormatKind::ZoneData
    &&& m.zone_data.ranges@ =~= seq![ZoneRange { first_zone: 0, count: 256, first_id: 100 }, ZoneRange { first_zone: 256, count: 256, first_id: 83891 }]
    &&& m.entities.format == FormatKind::EntityNames
    &&& m.entities.ranges@ =~= seq![ZoneRange { first_zone: 0, count: 256, first_id: 6720 }, ZoneRange { first_zone: 256, count: 256, first_id: 86491 }, ZoneRange { first_zone: 1000, count: 256, first_id: 67911 }]
    &&& m.dialog.format == FormatKind::Dialog
    &&& m.dialog.ranges@ =~= seq![ZoneRange { first_zone: 0, count: 256, first_id: 6420 }, ZoneRange { first_zone: 256, count: 256, first_id: 85590 }]
    &&& m.dialog2.format == FormatKind::Dialog
    &&& m.dialog2.ranges@ =~= seq![ZoneRange { first_zone: 50, count: 1, first_id: 57945 }]
    &&& m.events.format == FormatKind::Events
    &&& m.events.ranges@ =~= seq![ZoneRange { first_zone: 0, count: 256, first_id: 5820 }, ZoneRange { first_zone: 256, count: 256, first_id: 84991 }]
    &&& m.monster_skill_names == (Dat { id: 7035, format: FormatKind::Dialog })
    &&& m.status_names_dialog == (Dat { id: 7029, format: FormatKind::Dialog })
    &&& m.emote_messages == (Dat { id: 7025, format: FormatKind::Dialog })
    &&& m.system_messages_1 == (Dat { id: 7023, format: FormatKind::Dialog })
    &&& m.system_messages_2 == (Dat { id: 7031, format: FormatKind::Dialog })
    &&& m.system_messages_3 == (Dat { id: 7021, format: FormatKind::Dialog })
    &&& m.system_messages_4 == (Dat { id: 7027, format: FormatKind::Dialog })
    &&& m.unity_dialogs == (Dat { id: 7039, format: FormatKind::Dialog })
    &&& m.ability_names == (Dat { id: 55701, format: FormatKind::DmsgTable })
    &&& m.ability_descriptions == (Dat { id: 55733, format: FormatKind::DmsgTable })
    &&& m.area_names == (Dat { id: 55465, format: FormatKind::DmsgTable })
    &&& m.area_names_short == (Dat { id: 55466, format: FormatKind::DmsgTable })
    &&& m.area_names_alt == (Dat { id: 55661, format: FormatKind::DmsgTable })
    &&& m.augments == (Dat { id: 55692, format: FormatKind::DmsgTable })
    &&& m.blue_magic == (Dat { id: 55685, format: FormatKind::DmsgTable })
    &&& m.call_mount == (Dat { id: 55682, format: FormatKind::DmsgTable })
    &&& m.character_select == (Dat { id: 55470, format: FormatKind::DmsgTable })
    &&& m.chat_filter_types == (Dat { id: 55650, format: FormatKind::DmsgTable })
    &&& m.chocobo_names == (Dat { id: 55474, format: FormatKind::DmsgTable })
    &&& m.command_usage == (Dat { id: 55687, format: FormatKind::DmsgTable })
    &&& m.day_names == (Dat { id: 55658, format: FormatKind::DmsgTable })
    &&& m.directions == (Dat { id: 55659, format: FormatKind::DmsgTable })
    &&& m.einherjar_chambers == (Dat { id: 55472, format: FormatKind::DmsgTable })
    &&& m.emotes == (Dat { id: 55675, format: FormatKind::DmsgTable })
    &&& m.equipment_locations == (Dat { id: 55471, format: FormatKind::DmsgTable })
    &&& m.equipment_locations_alt == (Dat { id: 55666, format: FormatKind::DmsgTable })
    &&& m.error_messages == (Dat { id: 55646, format: FormatKind::DmsgTable })
    &&& m.ingame_messages_1 == (Dat { id: 55648, format: FormatKind::DmsgTable })
    &&& m.ingame_messages_2 == (Dat { id: 55649, format: FormatKind::XiStringTable })
    &&& m.job_names == (Dat { id: 55467, format: FormatKind::DmsgTable })
    &&& m.job_names_short == (Dat { id: 55468, format: FormatKind::DmsgTable })
    &&& m.job_point_bonuses == (Dat { id: 55694, format: FormatKind::DmsgTable })
    &&& m.job_point_gifts == (Dat { id: 55674, format: FormatKind::DmsgTable })
    &&& m.key_items == (Dat { id: 55695, format: FormatKind::DmsgTable })
    &&& m.menu_items_description == (Dat { id: 55651, format: FormatKind::DmsgTable })
    &&& m.menu_items_text == (Dat { id: 55652, format: FormatKind::DmsgTable })
    &&& m.merits == (Dat { id: 55686, format: FormatKind::DmsgTable })
    &&& m.missions_acp == (Dat { id: 55735, format: FormatKind::DmsgTable })
    &&& m.missions_amke == (Dat { id: 55736, format: FormatKind::DmsgTable })
    &&& m.missions_asa == (Dat { id: 55737, format: FormatKind::DmsgTable })
    &&& m.missions_assault == (Dat { id: 55720, format: FormatKind::DmsgTable })
    &&& m.missions_bastok == (Dat { id: 55716, format: FormatKind::DmsgTable })
    &&& m.missions_campaign == (Dat { id: 55724, format: FormatKind::DmsgTable })
    &&& m.missions_cop == (Dat { id: 55719, format: FormatKind::DmsgTable })
    &&& m.missions_rov == (Dat { id: 55741, format: FormatKind::DmsgTable })
    &&& m.missions_sandoria == (Dat { id: 55715, format: FormatKind::DmsgTable })
    &&& m.missions_soa == (Dat { id: 55738, format: FormatKind::DmsgTable })
    &&& m.missions_toau == (Dat { id: 55721, format: FormatKind::DmsgTable })
    &&& m.missions_windurst == (Dat { id: 55717, format: FormatKind::DmsgTable })
    &&& m.missions_wotg == (Dat { id: 55723, format: FormatKind::DmsgTable })
    &&& m.missions_zilart == (Dat { id: 55718, format: FormatKind::DmsgTable })
    &&& m.moblin_maze_mongers == (Dat { id: 55691, format: FormatKind::DmsgTable })
    &&& m.modifiers == (Dat { id: 55689, format: FormatKind::DmsgTable })
    &&& m.monster_families == (Dat { id: 55690, format: FormatKind::DmsgTable })
    &&& m.moon_phases == (Dat { id: 55660, format: FormatKind::DmsgTable })
    &&& m.mount_names == (Dat { id: 55681, format: FormatKind::DmsgTable })
    &&& m.pankration_names == (Dat { id: 55473, format: FormatKind::DmsgTable })
    &&& m.pol_messages == (Dat { id: 55647, format: FormatKind::XiStringTable })
    &&& m.quests_abyssea == (Dat { id: 55713, format: FormatKind::DmsgTable })
    &&& m.quests_bastok == (Dat { id: 55707, format: FormatKind::DmsgTable })
    &&& m.quests_coalition == (Dat { id: 55740, format: FormatKind::DmsgTable })
    &&& m.quests_jeuno == (Dat { id: 55709, format: FormatKind::DmsgTable })
    &&& m.quests_other == (Dat { id: 55710, format: FormatKind::DmsgTable })
    &&& m.quests_outlands == (Dat { id: 55711, format: FormatKind::DmsgTable })
    &&& m.quests_sandoria == (Dat { id: 55706, format: FormatKind::DmsgTable })
    &&& m.quests_soa == (Dat { id: 55739, format: FormatKind::DmsgTable })
    &&& m.quests_toau == (Dat { id: 55712, format: FormatKind::DmsgTable })
    &&& m.quests_windurst == (Dat { id: 55708, format: FormatKind::DmsgTable })
    &&& m.quests_wotg == (Dat { id: 55722, format: FormatKind::DmsgTable })
    &&& m.race_names == (Dat { id: 55469, format: FormatKind::DmsgTable })
    &&& m.region_names == (Dat { id: 55654, format: FormatKind::DmsgTable })
    &&& m.server_names == (Dat { id: 55680, format: FormatKind::DmsgTable })
    &&& m.spell_names == (Dat { id: 55702, format: FormatKind::DmsgTable })
    &&& m.spell_descriptions == (Dat { id: 55734, format: FormatKind::DmsgTable })
    &&& m.status_info == (Dat { id: 87, format: FormatKind::StatusInfoTable })
    &&& m.status_names == (Dat { id: 55725, format: FormatKind::DmsgTable })
    &&& m.time_and_pronouns == (Dat { id: 63, format: FormatKind::XiStringTable })
    &&& m.titles == (Dat { id: 55704, format: FormatKind::DmsgTable })
    &&& m.trust_messages == (Dat { id: 55693, format: FormatKind::DmsgTable })
    &&& m.misc1 == (Dat { id: 55645, format: FormatKind::DmsgTable })
    &&& m.misc2 == (Dat { id: 55653, format: FormatKind::DmsgTable })
    &&& m.weather_types == (Dat { id: 55657, format: FormatKind::DmsgTable })
    &&& m.armor == (Dat { id: 76, format: FormatKind::ItemInfoTable })
    &&& m.armor2 == (Dat { id: 55668, format: FormatKind::ItemInfoTable })
    &&& m.currency == (Dat { id: 91, format: FormatKind::ItemInfoTable })
    &&& m.general_items == (Dat { id: 73, format: FormatKind::ItemInfoTable })
    &&& m.general_items2 == (Dat { id: 55671, format: FormatKind::ItemInfoTable })
    &&& m.puppet_items == (Dat { id: 77, format: FormatKind::ItemInfoTable })
    &&& m.usable_items == (Dat { id: 74, format: FormatKind::ItemInfoTable })
    &&& m.weapons == (Dat { id: 75, format: FormatKind::ItemInfoTable })
    &&& m.vouchers_and_slips == (Dat { id: 55667, format: FormatKind::ItemInfoTable })
    &&& m.monipulator == (Dat { id: 55669, format: FormatKind::ItemInfoTable })
    &&& m.instincts == (Dat { id: 55670, format: FormatKind::ItemInfoTable })
    &&& m.data_menu == (Dat { id: 81, format: FormatKind::MenuTable })
    &&& m.quests_mission_keyitems == (Dat { id: 82, format: FormatKind::MenuTable })
}

impl DatIdMapping {
    /// The table IDs of the retail client.
    pub fn get() -> (m: DatIdMapping)
        ensures
            is_client_mapping(m),
    {
        DatIdMapping {
            zone_data: DatByZone {
                format: FormatKind::ZoneData,
                ranges: vec![ZoneRange { first_zone: 0, count: 256, first_id: 100 }, ZoneRange { first_zone: 256, count: 256, first_id: 83891 }],
            },
            entities: DatByZone {
                format: FormatKind::EntityNames,
                ranges: vec![ZoneRange { first_zone: 0, count: 256, first_id: 6720 }, ZoneRange { first_zone: 256, count: 256, first_id: 86491 }, ZoneRange { first_zone: 1000, count: 256, first_id: 67911 }],
            },
            dialog: DatByZone {
                format: FormatKind::Dialog,
                ranges: vec![ZoneRange { first_zone: 0, count: 256, first_id: 6420 }, ZoneRange { first_zone: 256, count: 256, first_id: 85590 }],
            },
            dialog2: DatByZone {
                format: FormatKind::Dialog,
                ranges: vec![ZoneRange { first_zone: 50, count: 1, first_id: 57945 }],
            },
            events: DatByZone {
                format: FormatKind::Events,
                ranges: vec![ZoneRange { first_zone: 0, count: 256, first_id: 5820 }, ZoneRange { first_zone: 256, count: 256, first_id: 84991 }],
            },
            monster_skill_names: Dat { id: 7035, format: FormatKind::Dialog },
            status_names_dialog: Dat { id: 7029, format: FormatKind::Dialog },
            emote_messages: Dat { id: 7025, format: FormatKind::Dialog },
            system_messages_1: Dat { id: 7023, format: FormatKind::Dialog },
            system_messages_2: Dat { id: 7031, format: FormatKind::Dialog },
            system_messages_3: Dat { id: 7021, format: FormatKind::Dialog },
            system_messages_4: Dat { id: 7027, format: FormatKind::Dialog },
            unity_dialogs: Dat { id: 7039, format: FormatKind::Dialog },
            ability_names: Dat { id: 55701, format: FormatKind::DmsgTable },
            ability_descriptions: Dat { id: 55733, format: FormatKind::DmsgTable },
            area_names: Dat { id: 55465, format: FormatKind::DmsgTable },
            area_names_short: Dat { id: 55466, format: FormatKind::DmsgTable },
            area_names_alt: Dat { id: 55661, format: FormatKind::DmsgTable },
            augments: Dat { id: 55692, format: FormatKind::DmsgTable },
            blue_magic: Dat { id: 55685, format: FormatKind::DmsgTable },
            call_mount: Dat { id: 55682, format: FormatKind::DmsgTable },
            character_select: Dat { id: 55470, format: FormatKind::DmsgTable },
            chat_filter_types: Dat { id: 55650, format: FormatKind::DmsgTable },
            chocobo_names: Dat { id: 55474, format: FormatKind::DmsgTable },
            command_usage: Dat { id: 55687, format: FormatKind::DmsgTable },
            day_names: Dat { id: 55658, format: FormatKind::DmsgTable },
            directions: Dat { id: 55659, format: FormatKind::DmsgTable },
            einherjar_chambers: Dat { id: 55472, format: FormatKind::DmsgTable },
            emotes: Dat { id: 55675, format: FormatKind::DmsgTable },
            equipment_locations: Dat { id: 55471, format: FormatKind::DmsgTable },
            equipment_locations_alt: Dat { id: 55666, format: FormatKind::DmsgTable },
            error_messages: Dat { id: 55646, format: FormatKind::DmsgTable },
            ingame_messages_1: Dat { id: 55648, format: FormatKind::DmsgTable },
            ingame_messages_2: Dat { id: 55649, format: FormatKind::XiStringTable },
            job_names: Dat { id: 55467, format: FormatKind::DmsgTable },
            job_names_short: Dat { id: 55468, format: FormatKind::DmsgTable },
            job_point_bonuses: Dat { id: 55694, format: FormatKind::DmsgTable },
            job_point_gifts: Dat { id: 55674, format: FormatKind::DmsgTable },
            key_items: Dat { id: 55695, format: FormatKind::DmsgTable },
            menu_items_description: Dat { id: 55651, format: FormatKind::DmsgTable },
            menu_items_text: Dat { id: 55652, format: FormatKind::DmsgTable },
            merits: Dat { id: 55686, format: FormatKind::DmsgTable },
            missions_acp: Dat { id: 55735, format: FormatKind::DmsgTable },
            missions_amke: Dat { id: 55736, format: FormatKind::DmsgTable },
            missions_asa: Dat { id: 55737, format: FormatKind::DmsgTable },
            missions_assault: Dat { id: 55720, format: FormatKind::DmsgTable },
            missions_bastok: Dat { id: 55716, format: FormatKind::DmsgTable },
            missions_campaign: Dat { id: 55724, format: FormatKind::DmsgTable },
            missions_cop: Dat { id: 55719, format: FormatKind::DmsgTable },
            missions_rov: Dat { id: 55741, format: FormatKind::DmsgTable },
            missions_sandoria: Dat { id: 55715, format: FormatKind::DmsgTable },
            missions_soa: Dat { id: 55738, format: FormatKind::DmsgTable },
            missions_toau: Dat { id: 55721, format: FormatKind::DmsgTable },
            missions_windurst: Dat { id: 55717, format: FormatKind::DmsgTable },
            missions_wotg: Dat { id: 55723, format: FormatKind::DmsgTable },
            missions_zilart: Dat { id: 55718, format: FormatKind::DmsgTable },
            moblin_maze_mongers: Dat { id: 55691, format: FormatKind::DmsgTable },
            modifiers: Dat { id: 55689, format: FormatKind::DmsgTable },
            monster_families: Dat { id: 55690, format: FormatKind::DmsgTable },
            moon_phases: Dat { id: 55660, format: FormatKind::DmsgTable },
            mount_names: Dat { id: 55681, format: FormatKind::DmsgTable },
            pankration_names: Dat { id: 55473, format: FormatKind::DmsgTable },
            pol_messages: Dat { id: 55647, format: FormatKind::XiStringTable },
            quests_abyssea: Dat { id: 55713, format: FormatKind::DmsgTable },
            quests_bastok: Dat { id: 55707, format: FormatKind::DmsgTable },
            quests_coalition: Dat { id: 55740, format: FormatKind::DmsgTable },
            quests_jeuno: Dat { id: 55709, format: FormatKind::DmsgTable },
            quests_other: Dat { id: 55710, format: FormatKind::DmsgTable },
            quests_outlands: Dat { id: 55711, format: FormatKind::DmsgTable },
            quests_sandoria: Dat { id: 55706, format: FormatKind::DmsgTable },
            quests_soa: Dat { id: 55739, format: FormatKind::DmsgTable },
            quests_toau: Dat { id: 55712, format: FormatKind::DmsgTable },
            quests_windurst: Dat { id: 55708, format: FormatKind::DmsgTable },
            quests_wotg: Dat { id: 55722, format: FormatKind::DmsgTable },
            race_names: Dat { id: 55469, format: FormatKind::DmsgTable },
            region_names: Dat { id: 55654, format: FormatKind::DmsgTable },
            server_names: Dat { id: 55680, format: FormatKind::DmsgTable },
            spell_names: Dat { id: 55702, format: FormatKind::DmsgTable },
            spell_descriptions: Dat { id: 55734, format: FormatKind::DmsgTable },
            status_info: Dat { id: 87, format: FormatKind::StatusInfoTable },
            status_names: Dat { id: 55725, format: FormatKind::DmsgTable },
            time_and_pronouns: Dat { id: 63, format: FormatKind::XiStringTable },
            titles: Dat { id: 55704, format: FormatKind::DmsgTable },
            trust_messages: Dat { id: 55693, format: FormatKind::DmsgTable },
            misc1: Dat { id: 55645, format: FormatKind::DmsgTable },
            misc2: Dat { id: 55653, format: FormatKind::DmsgTable },
            weather_types: Dat { id: 55657, format: FormatKind::DmsgTable },
            armor: Dat { id: 76, format: FormatKind::ItemInfoTable },
            armor2: Dat { id: 55668, format: FormatKind::ItemInfoTable },
            currency: Dat { id: 91, format: FormatKind::ItemInfoTable },
            general_items: Dat { id: 73, format: FormatKind::ItemInfoTable },
            general_items2: Dat { id: 55671, format: FormatKind::ItemInfoTable },
            puppet_items: Dat { id: 77, format: FormatKind::ItemInfoTable },
            usable_items: Dat { id: 74, format: FormatKind::ItemInfoTable },
            weapons: Dat { id: 75, format: FormatKind::ItemInfoTable },
            vouchers_and_slips: Dat { id: 55667, format: FormatKind::ItemInfoTable },
            monipulator: Dat { id: 55669, format: FormatKind::ItemInfoTable },
            instincts: Dat { id: 55670, format: FormatKind::ItemInfoTable },
            data_menu: Dat { id: 81, format: FormatKind::MenuTable },
            quests_mission_keyitems: Dat { id: 82, format: FormatKind::MenuTable },
        }
    }
}

} // verus!

verus! {

/// The (table ID, format) pairs of the IDs of one zone range.
pub open spec fn range_pairs(r: ZoneRange, format: FormatKind) -> Seq<(u32, FormatKind)> {
    Seq::new(r.count as nat, |i: int| (r.first_id.wrapping_add(i as u32), format))
}

/// The (table ID, format) pairs of the IDs of the ranges, range by range.
pub open spec fn ranges_pairs(ranges: Seq<ZoneRange>, format: FormatKind) -> Seq<(u32, FormatKind)>
    decreases ranges.len(),
{
    if ranges.len() == 0 {
        Seq::empty()
    } else {
        ranges_pairs(ranges.drop_last(), format) + range_pairs(ranges.last(), format)
    }
}

/// The Japanese string tables, which the client keeps beside the English ones.
pub open spec fn japanese_table_ids() -> Seq<u32> {
    seq![55581, 55613, 55541, 55572, 55565, 55562, 55530, 55567, 55538, 55539, 55555, 55546, 55526, 55528, 55574, 55554, 55575, 55531, 55532, 55566, 55615, 55616, 55617, 55600, 55596, 55604, 55599, 55621, 55595, 55618, 55601, 55597, 55603, 55598, 55571, 55569, 55570, 55540, 55561, 55593, 55587, 55620, 55589, 55590, 55591, 55586, 55619, 55592, 55588, 55602, 55534, 55560, 55582, 55614, 55605, 55584, 55573, 55525, 55533, 55537]
}

fn push_zone_pairs(out: &mut Vec<(u32, FormatKind)>, z: &DatByZone)
    ensures
        final(out)@ == old(out)@ + ranges_pairs(z.ranges@, z.format),
{
    let ghost start = out@;
    let mut k: usize = 0;
    while k < z.ranges.len()
        invariant
            k <= z.ranges@.len(),
            out@ == start + ranges_pairs(z.ranges@.subrange(0, k as int), z.format),
        decreases z.ranges@.len() - k,
    {
        let r = z.ranges[k];
        let ghost before = out@;
        let mut i: u16 = 0;
        while i < r.count
            invariant
                i <= r.count,
                out@ == before + range_pairs(r, z.format).subrange(0, i as int),
            decreases r.count - i,
        {
            out.push((r.first_id.wrapping_add(i as u32), z.format));
            assert(range_pairs(r, z.format).subrange(0, i + 1) =~= range_pairs(r, z.format).subrange(0, i as int).push((r.first_id.wrapping_add(i as u32), z.format)));
            i = i + 1;
        }
        assert(range_pairs(r, z.format).subrange(0, r.count as int) =~= range_pairs(r, z.format));
        assert(z.ranges@.subrange(0, k + 1).drop_last() =~= z.ranges@.subrange(0, k as int));
        assert(out@ =~= start + ranges_pairs(z.ranges@.subrange(0, k + 1), z.format));
        k = k + 1;
    }
    assert(z.ranges@.subrange(0, z.ranges@.len() as int) =~= z.ranges@);
}

impl DatIdMapping {
    /// The DATs with one table ID each, in declaration order.
    pub open spec fn named_dats(self) -> Seq<Dat> {
        seq![self.monster_skill_names, self.status_names_dialog, self.emote_messages, self.system_messages_1, self.system_messages_2, self.system_messages_3, self.system_messages_4, self.unity_dialogs, self.ability_names, self.ability_descriptions, self.area_names, self.area_names_short, self.area_names_alt, self.augments, self.blue_magic, self.call_mount, self.character_select, self.chat_filter_types, self.chocobo_names, self.command_usage, self.day_names, self.directions, self.einherjar_chambers, self.emotes, self.equipment_locations, self.equipment_locations_alt, self.error_messages, self.ingame_messages_1, self.ingame_messages_2, self.job_names, self.job_names_short, self.job_point_bonuses, self.job_point_gifts, self.key_items, self.menu_items_description, self.menu_items_text, self.merits, self.missions_acp, self.missions_amke, self.missions_asa, self.missions_assault, self.missions_bastok, self.missions_campaign, self.missions_cop, self.missions_rov, self.missions_sandoria, self.missions_soa, self.missions_toau, self.missions_windurst, self.missions_wotg, self.missions_zilart, self.moblin_maze_mongers, self.modifiers, self.monster_families, self.moon_phases, self.mount_names, self.pankration_names, self.pol_messages, self.quests_abyssea, self.quests_bastok, self.quests_coalition, self.quests_jeuno, self.quests_other, self.quests_outlands, self.quests_sandoria, self.quests_soa, self.quests_toau, self.quests_windurst, self.quests_wotg, self.race_names, self.region_names, self.server_names, self.spell_names, self.spell_descriptions, self.status_info, self.status_names, self.time_and_pronouns, self.titles, self.trust_messages, self.misc1, self.misc2, self.weather_types, self.armor, self.armor2, self.currency, self.general_items, self.general_items2, self.puppet_items, self.usable_items, self.weapons, self.vouchers_and_slips, self.monipulator, self.instincts, self.data_menu, self.quests_mission_keyitems]
    }

    /// Every (table ID, format) pair the mapping knows: the zone DATs, then
    /// the others, then the Japanese string tables.
    pub open spec fn format_pairs(self) -> Seq<(u32, FormatKind)> {
        ranges_pairs(self.zone_data.ranges@, self.zone_data.format)
            + ranges_pairs(self.entities.ranges@, self.entities.format)
            + ranges_pairs(self.dialog.ranges@, self.dialog.format)
            + ranges_pairs(self.dialog2.ranges@, self.dialog2.format)
            + ranges_pairs(self.events.ranges@, self.events.format)
            + self.named_dats().map_values(|d: Dat| (d.id, d.format))
            + japanese_table_ids().map_values(|id: u32| (id, FormatKind::DmsgTable))
    }

    /// Every (table ID, format) pair the mapping knows.
    pub fn format_mappings(&self) -> (r: Vec<(u32, FormatKind)>)
        ensures
            r@ == self.format_pairs(),
    {
        let mut out: Vec<(u32, FormatKind)> = Vec::new();
        push_zone_pairs(&mut out, &self.zone_data);
        push_zone_pairs(&mut out, &self.entities);
        push_zone_pairs(&mut out, &self.dialog);
        push_zone_pairs(&mut out, &self.dialog2);
        push_zone_pairs(&mut out, &self.events);
        let ghost zones = out@;
        let named: Vec<Dat> = vec![self.monster_skill_names, self.status_names_dialog, self.emote_messages, self.system_messages_1, self.system_messages_2, self.system_messages_3, self.system_messages_4, self.unity_dialogs, self.ability_names, self.ability_descriptions, self.area_names, self.area_names_short, self.area_names_alt, self.augments, self.blue_magic, self.call_mount, self.character_select, self.chat_filter_types, self.chocobo_names, self.command_usage, self.day_names, self.directions, self.einherjar_chambers, self.emotes, self.equipment_locations, self.equipment_locations_alt, self.error_messages, self.ingame_messages_1, self.ingame_messages_2, self.job_names, self.job_names_short, self.job_point_bonuses, self.job_point_gifts, self.key_items, self.menu_items_description, self.menu_items_text, self.merits, self.missions_acp, self.missions_amke, self.missions_asa, self.missions_assault, self.missions_bastok, self.missions_campaign, self.missions_cop, self.missions_rov, self.missions_sandoria, self.missions_soa, self.missions_toau, self.missions_windurst, self.missions_wotg, self.missions_zilart, self.moblin_maze_mongers, self.modifiers, self.monster_families, self.moon_phases, self.mount_names, self.pankration_names, self.pol_messages, self.quests_abyssea, self.quests_bastok, self.quests_coalition, self.quests_jeuno, self.quests_other, self.quests_outlands, self.quests_sandoria, self.quests_soa, self.quests_toau, self.quests_windurst, self.quests_wotg, self.race_names, self.region_names, self.server_names, self.spell_names, self.spell_descriptions, self.status_info, self.status_names, self.time_and_pronouns, self.titles, self.trust_messages, self.misc1, self.misc2, self.weather_types, self.armor, self.armor2, self.currency, self.general_items, self.general_items2, self.puppet_items, self.usable_items, self.weapons, self.vouchers_and_slips, self.monipulator, self.instincts, self.data_menu, self.quests_mission_keyitems];
        assert(named@ =~= self.named_dats());
        let mut i: usize = 0;
        while i < named.len()
            invariant
                i <= named@.len(),
                named@ == self.named_dats(),
                out@ == zones + self.named_dats().map_values(|d: Dat| (d.id, d.format)).subrange(0, i as int),
            decreases named@.len() - i,
        {
            out.push((named[i].id, named[i].format));
            assert(self.named_dats().map_values(|d: Dat| (d.id, d.format)).subrange(0, i + 1) =~= self.named_dats().map_values(|d: Dat| (d.id, d.format)).subrange(0, i as int).push((named@[i as int].id, named@[i as int].format)));
            i = i + 1;
        }
        assert(self.named_dats().map_values(|d: Dat| (d.id, d.format)).subrange(0, named@.len() as int) =~= self.named_dats().map_values(|d: Dat| (d.id, d.format)));
        let ghost with_named = out@;
        let japanese: Vec<u32> = vec![55581, 55613, 55541, 55572, 55565, 55562, 55530, 55567, 55538, 55539, 55555, 55546, 55526, 55528, 55574, 55554, 55575, 55531, 55532, 55566, 55615, 55616, 55617, 55600, 55596, 55604, 55599, 55621, 55595, 55618, 55601, 55597, 55603, 55598, 55571, 55569, 55570, 55540, 55561, 55593, 55587, 55620, 55589, 55590, 55591, 55586, 55619, 55592, 55588, 55602, 55534, 55560, 55582, 55614, 55605, 55584, 55573, 55525, 55533, 55537];
        assert(japanese@ =~= japanese_table_ids());
        let mut j: usize = 0;
        while j < japanese.len()
            invariant
                j <= japanese@.len(),
                japanese@ == japanese_table_ids(),
                out@ == with_named + japanese_table_ids().map_values(|id: u32| (id, FormatKind::DmsgTable)).subrange(0, j as int),
            decreases japanese@.len() - j,
        {
            out.push((japanese[j], FormatKind::DmsgTable));
            assert(japanese_table_ids().map_values(|id: u32| (id, FormatKind::DmsgTable)).subrange(0, j + 1) =~= japanese_table_ids().map_values(|id: u32| (id, FormatKind::DmsgTable)).subrange(0, j as int).push((japanese@[j as int], FormatKind::DmsgTable)));
            j = j + 1;
        }
        assert(japanese_table_ids().map_values(|id: u32| (id, FormatKind::DmsgTable)).subrange(0, japanese@.len() as int) =~= japanese_table_ids().map_values(|id: u32| (id, FormatKind::DmsgTable)));
        out
    }
}

} // verus!
