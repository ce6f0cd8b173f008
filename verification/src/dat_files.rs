//! Each DAT is converted to exactly one YAML file: no two descriptors name
//! the same DAT.
use vstd::prelude::*;
use crate::dat_descriptor::DatDescriptor;
use crate::id_mapping::{is_client_mapping, zone_lookup, DatIdMapping};

verus! {

/// The descriptor that converts the DAT with table ID `id`, if any.
pub open spec fn dat_owner(id: u32) -> Option<DatDescriptor> {
    if 100 <= id < 356 {
        Some(DatDescriptor::ZoneData((0 + (id - 100)) as u16))
    } else if 83891 <= id < 84147 {
        Some(DatDescriptor::ZoneData((256 + (id - 83891)) as u16))
    } else if 6720 <= id < 6976 {
        Some(DatDescriptor::EntityNames((0 + (id - 6720)) as u16))
    } else if 86491 <= id < 86747 {
        Some(DatDescriptor::EntityNames((256 + (id - 86491)) as u16))
    } else if 67911 <= id < 68167 {
        Some(DatDescriptor::EntityNames((1000 + (id - 67911)) as u16))
    } else if 6420 <= id < 6676 {
        Some(DatDescriptor::Dialog((0 + (id - 6420)) as u16))
    } else if 85590 <= id < 85846 {
        Some(DatDescriptor::Dialog((256 + (id - 85590)) as u16))
    } else if id == 57945 {
        Some(DatDescriptor::Dialog2(50))
    } else if 5820 <= id < 6076 {
        Some(DatDescriptor::Events((0 + (id - 5820)) as u16))
    } else if 84991 <= id < 85247 {
        Some(DatDescriptor::Events((256 + (id - 84991)) as u16))
    } else if id == 81 {
        Some(DatDescriptor::DataMenu)
    } else if id == 82 {
        Some(DatDescriptor::QuestsMissionsKeyItems)
    } else if id == 55701 {
        Some(DatDescriptor::AbilityNames)
    } else if id == 55733 {
        Some(DatDescriptor::AbilityDescriptions)
    } else if id == 55465 {
        Some(DatDescriptor::AreaNames)
    } else if id == 55466 {
        Some(DatDescriptor::AreaNamesShort)
    } else if id == 55661 {
        Some(DatDescriptor::AreaNamesAlt)
    } else if id == 55692 {
        Some(DatDescriptor::Augments)
    } else if id == 55685 {
        Some(DatDescriptor::BlueMagic)
    } else if id == 55682 {
        Some(DatDescriptor::CallMount)
    } else if id == 55470 {
        Some(DatDescriptor::CharacterSelect)
    } else if id == 55650 {
        Some(DatDescriptor::ChatFilterTypes)
    } else if id == 55474 {
        Some(DatDescriptor::ChocoboNames)
    } else if id == 55687 {
        Some(DatDescriptor::CommandUsage)
    } else if id == 55658 {
        Some(DatDescriptor::DayNames)
    } else if id == 55659 {
        Some(DatDescriptor::Directions)
    } else if id == 55472 {
        Some(DatDescriptor::EinherjarChambers)
    } else if id == 55675 {
        Some(DatDescriptor::Emotes)
    } else if id == 55471 {
        Some(DatDescriptor::EquipmentLocations)
    } else if id == 55666 {
        Some(DatDescriptor::EquipmentLocationsAlt)
    } else if id == 55646 {
        Some(DatDescriptor::ErrorMessages)
    } else if id == 55648 {
        Some(DatDescriptor::IngameMessages1)
    } else if id == 55649 {
        Some(DatDescriptor::IngameMessages2)
    } else if id == 55467 {
        Some(DatDescriptor::JobNames)
    } else if id == 55468 {
        Some(DatDescriptor::JobNamesShort)
    } else if id == 55694 {
        Some(DatDescriptor::JobPointBonuses)
    } else if id == 55674 {
        Some(DatDescriptor::JobPointGifts)
    } else if id == 55695 {
        Some(DatDescriptor::KeyItems)
    } else if id == 55651 {
        Some(DatDescriptor::MenuItemsDescription)
    } else if id == 55652 {
        Some(DatDescriptor::MenuItemsText)
    } else if id == 55686 {
        Some(DatDescriptor::Merits)
    } else if id == 55735 {
        Some(DatDescriptor::MissionsAcp)
    } else if id == 55736 {
        Some(DatDescriptor::MissionsAmke)
    } else if id == 55737 {
        Some(DatDescriptor::MissionsAsa)
    } else if id == 55720 {
        Some(DatDescriptor::MissionsAssault)
    } else if id == 55716 {
        Some(DatDescriptor::MissionsBastok)
    } else if id == 55724 {
        Some(DatDescriptor::MissionsCampaign)
    } else if id == 55719 {
        Some(DatDescriptor::MissionsCop)
    } else if id == 55741 {
        Some(DatDescriptor::MissionsRov)
    } else if id == 55715 {
        Some(DatDescriptor::MissionsSandoria)
    } else if id == 55738 {
        Some(DatDescriptor::MissionsSoa)
    } else if id == 55721 {
        Some(DatDescriptor::MissionsToau)
    } else if id == 55717 {
        Some(DatDescriptor::MissionsWindurst)
    } else if id == 55723 {
        Some(DatDescriptor::MissionsWotg)
    } else if id == 55718 {
        Some(DatDescriptor::MissionsZilart)
    } else if id == 55691 {
        Some(DatDescriptor::MoblinMazeMongers)
    } else if id == 55689 {
        Some(DatDescriptor::Modifiers)
    } else if id == 55690 {
        Some(DatDescriptor::MonsterFamilies)
    } else if id == 55660 {
        Some(DatDescriptor::MoonPhases)
    } else if id == 55473 {
        Some(DatDescriptor::PankrationNames)
    } else if id == 55647 {
        Some(DatDescriptor::PolMessages)
    } else if id == 55713 {
        Some(DatDescriptor::QuestsAbyssea)
    } else if id == 55707 {
        Some(DatDescriptor::QuestsBastok)
    } else if id == 55740 {
        Some(DatDescriptor::QuestsCoalition)
    } else if id == 55709 {
        Some(DatDescriptor::QuestsJeuno)
    } else if id == 55710 {
        Some(DatDescriptor::QuestsOther)
    } else if id == 55711 {
        Some(DatDescriptor::QuestsOutlands)
    } else if id == 55706 {
        Some(DatDescriptor::QuestsSandoria)
    } else if id == 55739 {
        Some(DatDescriptor::QuestsSoa)
    } else if id == 55712 {
        Some(DatDescriptor::QuestsToau)
    } else if id == 55708 {
        Some(DatDescriptor::QuestsWindurst)
    } else if id == 55722 {
        Some(DatDescriptor::QuestsWotg)
    } else if id == 55469 {
        Some(DatDescriptor::RaceNames)
    } else if id == 55654 {
        Some(DatDescriptor::RegionNames)
    } else if id == 55680 {
        Some(DatDescriptor::ServerNames)
    } else if id == 55702 {
        Some(DatDescriptor::SpellNames)
    } else if id == 55734 {
        Some(DatDescriptor::SpellDescriptions)
    } else if id == 87 {
        Some(DatDescriptor::StatusInfo)
    } else if id == 55725 {
        Some(DatDescriptor::StatusNames)
    } else if id == 63 {
        Some(DatDescriptor::TimeAndPronouns)
    } else if id == 55704 {
        Some(DatDescriptor::Titles)
    } else if id == 55693 {
        Some(DatDescriptor::TrustMessages)
    } else if id == 55645 {
        Some(DatDescriptor::Misc1)
    } else if id == 55653 {
        Some(DatDescriptor::Misc2)
    } else if id == 55657 {
        Some(DatDescriptor::WeatherTypes)
    } else if id == 76 {
        Some(DatDescriptor::Armor)
    } else if id == 55668 {
        Some(DatDescriptor::Armor2)
    } else if id == 91 {
        Some(DatDescriptor::Currency)
    } else if id == 73 {
        Some(DatDescriptor::GeneralItems)
    } else if id == 55671 {
        Some(DatDescriptor::GeneralItems2)
    } else if id == 77 {
        Some(DatDescriptor::PuppetItems)
    } else if id == 74 {
        Some(DatDescriptor::UsableItems)
    } else if id == 75 {
        Some(DatDescriptor::Weapons)
    } else if id == 55667 {
        Some(DatDescriptor::VouchersAndSlips)
    } else if id == 55669 {
        Some(DatDescriptor::Monipulator)
    } else if id == 55670 {
        Some(DatDescriptor::Instincts)
    } else if id == 7035 {
        Some(DatDescriptor::MonsterSkillNames)
    } else if id == 7029 {
        Some(DatDescriptor::StatusNamesDialog)
    } else if id == 7025 {
        Some(DatDescriptor::EmoteMessages)
    } else if id == 7023 {
        Some(DatDescriptor::SystemMessages1)
    } else if id == 7031 {
        Some(DatDescriptor::SystemMessages2)
    } else if id == 7021 {
        Some(DatDescriptor::SystemMessages3)
    } else if id == 7027 {
        Some(DatDescriptor::SystemMessages4)
    } else if id == 7039 {
        Some(DatDescriptor::UnityDialogs)
    } else {
        None
    }
}

/// The descriptor of a DAT is the owner of its ID.
#[verifier::rlimit(100)]
proof fn lemma_dat_owner(m: DatIdMapping, d: DatDescriptor)
    requires
        is_client_mapping(m),
        d.dat_spec(m) is Some,
    ensures
        dat_owner(d.dat_spec(m).unwrap().id) == Some(d),
{
    reveal_with_fuel(zone_lookup, 4);
}

/// One DAT, one YAML file: two descriptors whose DATs share a table ID are
/// the same descriptor.
pub proof fn lemma_one_file_per_dat(m: DatIdMapping, d1: DatDescriptor, d2: DatDescriptor)
    requires
        is_client_mapping(m),
        d1.dat_spec(m) is Some,
        d2.dat_spec(m) is Some,
        d1.dat_spec(m).unwrap().id == d2.dat_spec(m).unwrap().id,
    ensures
        d1 == d2,
{
    lemma_dat_owner(m, d1);
    lemma_dat_owner(m, d2);
}


/// The position among the named DATs of the client's DAT with ID `id`, or -1.
pub open spec fn named_position(id: u32) -> int {
    if id == 7035 {
        0
    } else if id == 7029 {
        1
    } else if id == 7025 {
        2
    } else if id == 7023 {
        3
    } else if id == 7031 {
        4
    } else if id == 7021 {
        5
    } else if id == 7027 {
        6
    } else if id == 7039 {
        7
    } else if id == 55701 {
        8
    } else if id == 55733 {
        9
    } else if id == 55465 {
        10
    } else if id == 55466 {
        11
    } else if id == 55661 {
        12
    } else if id == 55692 {
        13
    } else if id == 55685 {
        14
    } else if id == 55682 {
        15
    } else if id == 55470 {
        16
    } else if id == 55650 {
        17
    } else if id == 55474 {
        18
    } else if id == 55687 {
        19
    } else if id == 55658 {
        20
    } else if id == 55659 {
        21
    } else if id == 55472 {
        22
    } else if id == 55675 {
        23
    } else if id == 55471 {
        24
    } else if id == 55666 {
        25
    } else if id == 55646 {
        26
    } else if id == 55648 {
        27
    } else if id == 55649 {
        28
    } else if id == 55467 {
        29
    } else if id == 55468 {
        30
    } else if id == 55694 {
        31
    } else if id == 55674 {
        32
    } else if id == 55695 {
        33
    } else if id == 55651 {
        34
    } else if id == 55652 {
        35
    } else if id == 55686 {
        36
    } else if id == 55735 {
        37
    } else if id == 55736 {
        38
    } else if id == 55737 {
        39
    } else if id == 55720 {
        40
    } else if id == 55716 {
        41
    } else if id == 55724 {
        42
    } else if id == 55719 {
        43
    } else if id == 55741 {
        44
    } else if id == 55715 {
        45
    } else if id == 55738 {
        46
    } else if id == 55721 {
        47
    } else if id == 55717 {
        48
    } else if id == 55723 {
        49
    } else if id == 55718 {
        50
    } else if id == 55691 {
        51
    } else if id == 55689 {
        52
    } else if id == 55690 {
        53
    } else if id == 55660 {
        54
    } else if id == 55681 {
        55
    } else if id == 55473 {
        56
    } else if id == 55647 {
        57
    } else if id == 55713 {
        58
    } else if id == 55707 {
        59
    } else if id == 55740 {
        60
    } else if id == 55709 {
        61
    } else if id == 55710 {
        62
    } else if id == 55711 {
        63
    } else if id == 55706 {
        64
    } else if id == 55739 {
        65
    } else if id == 55712 {
        66
    } else if id == 55708 {
        67
    } else if id == 55722 {
        68
    } else if id == 55469 {
        69
    } else if id == 55654 {
        70
    } else if id == 55680 {
        71
    } else if id == 55702 {
        72
    } else if id == 55734 {
        73
    } else if id == 87 {
        74
    } else if id == 55725 {
        75
    } else if id == 63 {
        76
    } else if id == 55704 {
        77
    } else if id == 55693 {
        78
    } else if id == 55645 {
        79
    } else if id == 55653 {
        80
    } else if id == 55657 {
        81
    } else if id == 76 {
        82
    } else if id == 55668 {
        83
    } else if id == 91 {
        84
    } else if id == 73 {
        85
    } else if id == 55671 {
        86
    } else if id == 77 {
        87
    } else if id == 74 {
        88
    } else if id == 75 {
        89
    } else if id == 55667 {
        90
    } else if id == 55669 {
        91
    } else if id == 55670 {
        92
    } else if id == 81 {
        93
    } else if id == 82 {
        94
    } else {
        -1
    }
}

/// The client's named DATs have distinct table IDs.
#[verifier::rlimit(100)]
pub proof fn lemma_named_ids_distinct(m: DatIdMapping)
    requires
        is_client_mapping(m),
    ensures
        forall|a: int, b: int|
            0 <= a < b < m.named_dats().len() ==> (#[trigger] m.named_dats()[a]).id != (
            #[trigger] m.named_dats()[b]).id,
{
    let named = m.named_dats();
    assert(named.len() == 95);
    assert forall|k: int| 0 <= k < named.len() implies named_position(#[trigger] named[k].id) == k by {
        if k == 0 {
        } else if k == 1 {
        } else if k == 2 {
        } else if k == 3 {
        } else if k == 4 {
        } else if k == 5 {
        } else if k == 6 {
        } else if k == 7 {
        } else if k == 8 {
        } else if k == 9 {
        } else if k == 10 {
        } else if k == 11 {
        } else if k == 12 {
        } else if k == 13 {
        } else if k == 14 {
        } else if k == 15 {
        } else if k == 16 {
        } else if k == 17 {
        } else if k == 18 {
        } else if k == 19 {
        } else if k == 20 {
        } else if k == 21 {
        } else if k == 22 {
        } else if k == 23 {
        } else if k == 24 {
        } else if k == 25 {
        } else if k == 26 {
        } else if k == 27 {
        } else if k == 28 {
        } else if k == 29 {
        } else if k == 30 {
        } else if k == 31 {
        } else if k == 32 {
        } else if k == 33 {
        } else if k == 34 {
        } else if k == 35 {
        } else if k == 36 {
        } else if k == 37 {
        } else if k == 38 {
        } else if k == 39 {
        } else if k == 40 {
        } else if k == 41 {
        } else if k == 42 {
        } else if k == 43 {
        } else if k == 44 {
        } else if k == 45 {
        } else if k == 46 {
        } else if k == 47 {
        } else if k == 48 {
        } else if k == 49 {
        } else if k == 50 {
        } else if k == 51 {
        } else if k == 52 {
        } else if k == 53 {
        } else if k == 54 {
        } else if k == 55 {
        } else if k == 56 {
        } else if k == 57 {
        } else if k == 58 {
        } else if k == 59 {
        } else if k == 60 {
        } else if k == 61 {
        } else if k == 62 {
        } else if k == 63 {
        } else if k == 64 {
        } else if k == 65 {
        } else if k == 66 {
        } else if k == 67 {
        } else if k == 68 {
        } else if k == 69 {
        } else if k == 70 {
        } else if k == 71 {
        } else if k == 72 {
        } else if k == 73 {
        } else if k == 74 {
        } else if k == 75 {
        } else if k == 76 {
        } else if k == 77 {
        } else if k == 78 {
        } else if k == 79 {
        } else if k == 80 {
        } else if k == 81 {
        } else if k == 82 {
        } else if k == 83 {
        } else if k == 84 {
        } else if k == 85 {
        } else if k == 86 {
        } else if k == 87 {
        } else if k == 88 {
        } else if k == 89 {
        } else if k == 90 {
        } else if k == 91 {
        } else if k == 92 {
        } else if k == 93 {
        } else if k == 94 {
        }
    }
}

} // verus!
