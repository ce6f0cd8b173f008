//! Where the YAML files of the DATs lie, and that each is recognised as the
//! DAT it was written for.
use vstd::prelude::*;
use crate::dat_path::{kept_segment, segment_scan, segments};
use crate::dat_descriptor::{
    zone_id_of, zone_name_of, DatDescriptor, dir_lookup, descriptor_from_path_spec, is_named, root_descriptor, seg_chars, trim_yml,
};

verus! {

/// The `.yml` extension.
pub open spec fn yml() -> Seq<char> {
    seq!['.', 'y', 'm', 'l']
}

/// Whether no character of `s` is `/`.
pub open spec fn slash_free(s: Seq<char>) -> bool {
    forall|k: int| 0 <= k < s.len() ==> s[k] != '/'
}

/// Whether the first `n` characters of `s` are neither `/` nor `.`.
pub open spec fn plain_prefix(s: Seq<char>, n: int) -> bool
    decreases n,
{
    if n <= 0 {
        true
    } else {
        s[n - 1] != '/' && s[n - 1] != '.' && plain_prefix(s, n - 1)
    }
}

/// Whether the first `n` characters of `a` and `b` agree.
pub open spec fn agree(a: Seq<char>, b: Seq<char>, n: int) -> bool
    decreases n,
{
    if n <= 0 {
        true
    } else {
        a[n - 1] == b[n - 1] && agree(a, b, n - 1)
    }
}

proof fn lemma_plain_prefix(s: Seq<char>, n: int)
    requires
        plain_prefix(s, n),
    ensures
        forall|k: int| 0 <= k < n ==> s[k] != '/' && s[k] != '.',
    decreases n,
{
    if n > 0 {
        lemma_plain_prefix(s, n - 1);
    }
}

/// A name made of characters other than `/` and `.` is a named,
/// slash-free component that has no `.yml` to trim.
proof fn lemma_plain_name(s: Seq<char>)
    requires
        plain_prefix(s, s.len() as int),
        s.len() > 0,
    ensures
        slash_free(s),
        is_named(s),
        trim_yml(s) == s,
{
    lemma_plain_prefix(s, s.len() as int);
    assert(s[0] != '.');
    assert(seq!['.'][0] == '.');
    assert(seq!['.', '.'][0] == '.');
    if s.len() >= 4 {
        let tail = s.subrange(s.len() - 4, s.len() as int);
        assert(tail[0] == s[s.len() - 4]);
        assert(yml()[0] == '.');
        assert(tail != yml());
    }
}

proof fn lemma_agree(a: Seq<char>, b: Seq<char>)
    requires
        a.len() == b.len(),
        agree(a, b, a.len() as int),
    ensures
        a == b,
{
    lemma_agree_prefix(a, b, a.len() as int);
    assert(a =~= b);
}

proof fn lemma_agree_prefix(a: Seq<char>, b: Seq<char>, n: int)
    requires
        agree(a, b, n),
    ensures
        forall|k: int| 0 <= k < n ==> a[k] == b[k],
    decreases n,
{
    if n > 0 {
        lemma_agree_prefix(a, b, n - 1);
    }
}

/// Scanning on over characters that are not `/` changes nothing.
proof fn lemma_scan_tail(s: Seq<char>, from: int, n: int)
    requires
        0 <= from <= n <= s.len(),
        forall|k: int| from <= k < n ==> s[k] != '/',
    ensures
        segment_scan(s, n) == segment_scan(s, from),
    decreases n - from,
{
    if n > from {
        lemma_scan_tail(s, from, n - 1);
    }
}

/// A slash-free path is one component.
proof fn lemma_single_segment(s: Seq<char>)
    requires
        s.len() > 0,
        slash_free(s),
    ensures
        segments(s) == seq![(0int, s.len() as int)],
{
    lemma_scan_tail(s, 0, s.len() as int);
    assert(segment_scan(s, 0) == (Seq::<(int, int)>::empty(), 0int));
    assert(kept_segment(s, 0, s.len() as int));
    assert(seq![(0int, s.len() as int)] =~= Seq::<(int, int)>::empty().push((0int, s.len() as int)));
}

/// `dir/name` with slash-free parts is the two components.
proof fn lemma_two_segments(dir: Seq<char>, name: Seq<char>)
    requires
        dir.len() > 0,
        name.len() > 1,
        slash_free(dir),
        slash_free(name),
    ensures
        segments(dir + seq!['/'] + name) == seq![
            (0int, dir.len() as int),
            (dir.len() + 1int, dir.len() + 1int + name.len()),
        ],
{
    let s = dir + seq!['/'] + name;
    let d = dir.len() as int;
    assert forall|k: int| 0 <= k < d implies s[k] != '/' by {
        assert(s[k] == dir[k]);
    }
    lemma_scan_tail(s, 0, d);
    assert(segment_scan(s, 0) == (Seq::<(int, int)>::empty(), 0int));
    assert(s[d] == '/');
    assert(kept_segment(s, 0, d));
    assert(segment_scan(s, d + 1) == (seq![(0int, d)], d + 1)) by {
        assert(Seq::<(int, int)>::empty().push((0int, d)) =~= seq![(0int, d)]);
    }
    assert forall|k: int| d + 1 <= k < s.len() implies s[k] != '/' by {
        assert(s[k] == name[k - d - 1]);
    }
    lemma_scan_tail(s, d + 1, s.len() as int);
    assert(kept_segment(s, d + 1, s.len() as int));
    assert(seq![(0int, d)].push((d + 1, s.len() as int)) =~= seq![(0int, d), (d + 1, d + 1 + name.len())]);
}

/// The YAML file of a DAT of the raw data directory itself is looked up in
/// the table of that directory.
proof fn lemma_root_path(name: Seq<char>, zones: Seq<(u16, String)>)
    requires
        name.len() > 0,
        slash_free(name),
        trim_yml(name) == name,
    ensures
        descriptor_from_path_spec(name + yml(), zones) == root_descriptor(name),
{
    let s = name + yml();
    assert forall|k: int| 0 <= k < s.len() implies s[k] != '/' by {
        if k < name.len() {
            assert(s[k] == name[k]);
        } else {
            assert(s[k] == yml()[k - name.len()]);
        }
    }
    lemma_single_segment(s);
    assert(seg_chars(s, (0int, s.len() as int)) =~= s);
    assert(is_named(s)) by {
        assert(s.len() >= 5);
    }
    assert(s.subrange(s.len() - 4, s.len() as int) =~= yml());
    assert(s.subrange(0, s.len() - 4) =~= name);
}

/// The YAML file `dir/name.yml` is looked up in the table of `dir`.
proof fn lemma_dir_path(dir: Seq<char>, name: Seq<char>, zones: Seq<(u16, String)>)
    requires
        dir.len() > 0,
        slash_free(dir),
        is_named(dir),
        slash_free(name),
        trim_yml(name) == name,
    ensures
        descriptor_from_path_spec(dir + seq!['/'] + name + yml(), zones) == dir_lookup(dir, name, zones),
{
    let file = name + yml();
    let s = dir + seq!['/'] + file;
    assert(dir + seq!['/'] + name + yml() =~= s);
    assert forall|k: int| 0 <= k < file.len() implies file[k] != '/' by {
        if k < name.len() {
            assert(file[k] == name[k]);
        } else {
            assert(file[k] == yml()[k - name.len()]);
        }
    }
    lemma_two_segments(dir, file);
    let d = dir.len() as int;
    assert(seg_chars(s, (0int, d)) =~= dir);
    assert(seg_chars(s, (d + 1, d + 1 + file.len())) =~= file);
    assert(is_named(file)) by {
        assert(file.len() >= 4);
    }
    assert(file.subrange(file.len() - 4, file.len() as int) =~= yml());
    assert(file.subrange(0, file.len() - 4) =~= name);
}


/// The table that finds a DAT from its YAML file name: that of the raw data
/// directory (0), of `items` (1), of `global_dialog` (2) or of a per-zone
/// directory (3).
pub open spec fn yaml_table(d: DatDescriptor) -> int {
    match d {
        DatDescriptor::Armor | DatDescriptor::Armor2 | DatDescriptor::Currency | DatDescriptor::GeneralItems | DatDescriptor::GeneralItems2 | DatDescriptor::PuppetItems | DatDescriptor::UsableItems | DatDescriptor::Weapons | DatDescriptor::VouchersAndSlips | DatDescriptor::Monipulator | DatDescriptor::Instincts => 1,
        DatDescriptor::MonsterSkillNames | DatDescriptor::StatusNamesDialog | DatDescriptor::EmoteMessages | DatDescriptor::SystemMessages1 | DatDescriptor::SystemMessages2 | DatDescriptor::SystemMessages3 | DatDescriptor::SystemMessages4 | DatDescriptor::UnityDialogs => 2,
        DatDescriptor::ZoneData(_) | DatDescriptor::EntityNames(_) | DatDescriptor::Dialog(_)
        | DatDescriptor::Dialog2(_) | DatDescriptor::Events(_) => 3,
        _ => 0,
    }
}

/// What the law on YAML paths asks of the file name of zone `z`, if it has
/// one: no `/` in it, no `.yml` to trim, and no other zone named by it
/// after it. An empty name is fine: its file is `.yml` in the zone's
/// directory.
pub open spec fn zone_name_invertible(zones: Seq<(u16, String)>, z: u16) -> bool {
    zone_name_of(zones, z) is Some ==> {
        let n = zone_name_of(zones, z).unwrap();
        &&& slash_free(n)
        &&& trim_yml(n) == n
        &&& zone_id_of(zones, n) == Some(z)
    }
}

/// The characters of the names of the directories that have tables of their
/// own.
proof fn lemma_directory_names()
    ensures
        "zones"@.len() == 5 && "zones"@[0] == 'z' && "zones"@[1] == 'o' && "zones"@[2] == 'n' && "zones"@[3] == 'e' && "zones"@[4] == 's',
        "entity_names"@.len() == 12 && "entity_names"@[0] == 'e' && "entity_names"@[1] == 'n' && "entity_names"@[2] == 't' && "entity_names"@[3] == 'i' && "entity_names"@[4] == 't' && "entity_names"@[5] == 'y' && "entity_names"@[6] == '_' && "entity_names"@[7] == 'n' && "entity_names"@[8] == 'a' && "entity_names"@[9] == 'm' && "entity_names"@[10] == 'e' && "entity_names"@[11] == 's',
        "dialog"@.len() == 6 && "dialog"@[0] == 'd' && "dialog"@[1] == 'i' && "dialog"@[2] == 'a' && "dialog"@[3] == 'l' && "dialog"@[4] == 'o' && "dialog"@[5] == 'g',
        "dialog2"@.len() == 7 && "dialog2"@[0] == 'd' && "dialog2"@[1] == 'i' && "dialog2"@[2] == 'a' && "dialog2"@[3] == 'l' && "dialog2"@[4] == 'o' && "dialog2"@[5] == 'g' && "dialog2"@[6] == '2',
        "events"@.len() == 6 && "events"@[0] == 'e' && "events"@[1] == 'v' && "events"@[2] == 'e' && "events"@[3] == 'n' && "events"@[4] == 't' && "events"@[5] == 's',
        "items"@.len() == 5 && "items"@[0] == 'i' && "items"@[1] == 't' && "items"@[2] == 'e' && "items"@[3] == 'm' && "items"@[4] == 's',
        "global_dialog"@.len() == 13 && "global_dialog"@[0] == 'g' && "global_dialog"@[1] == 'l' && "global_dialog"@[2] == 'o' && "global_dialog"@[3] == 'b' && "global_dialog"@[4] == 'a' && "global_dialog"@[5] == 'l' && "global_dialog"@[6] == '_' && "global_dialog"@[7] == 'd' && "global_dialog"@[8] == 'i' && "global_dialog"@[9] == 'a' && "global_dialog"@[10] == 'l' && "global_dialog"@[11] == 'o' && "global_dialog"@[12] == 'g',
{
    reveal_strlit("zones");
    reveal_strlit("entity_names");
    reveal_strlit("dialog");
    reveal_strlit("dialog2");
    reveal_strlit("events");
    reveal_strlit("items");
    reveal_strlit("global_dialog");
}

/// Each DAT of the raw data directory itself is found again from its YAML file.
#[verifier::rlimit(100)]
proof fn lemma_root_yaml_paths(d: DatDescriptor, zones: Seq<(u16, String)>)
    requires
        yaml_table(d) == 0,
    ensures
        descriptor_from_path_spec(d.plain_name().unwrap() + yml(), zones) == Some(d),
{
    reveal_strlit("data_menu");
    assert("data_menu"@.len() == 9 && "data_menu"@[0] == 'd' && "data_menu"@[1] == 'a' && "data_menu"@[2] == 't' && "data_menu"@[3] == 'a' && "data_menu"@[4] == '_' && "data_menu"@[5] == 'm' && "data_menu"@[6] == 'e' && "data_menu"@[7] == 'n' && "data_menu"@[8] == 'u');
    reveal_strlit("quests_mission_keyitems");
    assert("quests_mission_keyitems"@.len() == 23 && "quests_mission_keyitems"@[0] == 'q' && "quests_mission_keyitems"@[1] == 'u' && "quests_mission_keyitems"@[2] == 'e' && "quests_mission_keyitems"@[3] == 's' && "quests_mission_keyitems"@[4] == 't' && "quests_mission_keyitems"@[5] == 's' && "quests_mission_keyitems"@[6] == '_' && "quests_mission_keyitems"@[7] == 'm' && "quests_mission_keyitems"@[8] == 'i' && "quests_mission_keyitems"@[9] == 's' && "quests_mission_keyitems"@[10] == 's' && "quests_mission_keyitems"@[11] == 'i' && "quests_mission_keyitems"@[12] == 'o' && "quests_mission_keyitems"@[13] == 'n' && "quests_mission_keyitems"@[14] == '_' && "quests_mission_keyitems"@[15] == 'k' && "quests_mission_keyitems"@[16] == 'e' && "quests_mission_keyitems"@[17] == 'y' && "quests_mission_keyitems"@[18] == 'i' && "quests_mission_keyitems"@[19] == 't' && "quests_mission_keyitems"@[20] == 'e' && "quests_mission_keyitems"@[21] == 'm' && "quests_mission_keyitems"@[22] == 's');
    reveal_strlit("ability_names");
    assert("ability_names"@.len() == 13 && "ability_names"@[0] == 'a' && "ability_names"@[1] == 'b' && "ability_names"@[2] == 'i' && "ability_names"@[3] == 'l' && "ability_names"@[4] == 'i' && "ability_names"@[5] == 't' && "ability_names"@[6] == 'y' && "ability_names"@[7] == '_' && "ability_names"@[8] == 'n' && "ability_names"@[9] == 'a' && "ability_names"@[10] == 'm' && "ability_names"@[11] == 'e' && "ability_names"@[12] == 's');
    reveal_strlit("ability_descriptions");
    assert("ability_descriptions"@.len() == 20 && "ability_descriptions"@[0] == 'a' && "ability_descriptions"@[1] == 'b' && "ability_descriptions"@[2] == 'i' && "ability_descriptions"@[3] == 'l' && "ability_descriptions"@[4] == 'i' && "ability_descriptions"@[5] == 't' && "ability_descriptions"@[6] == 'y' && "ability_descriptions"@[7] == '_' && "ability_descriptions"@[8] == 'd' && "ability_descriptions"@[9] == 'e' && "ability_descriptions"@[10] == 's' && "ability_descriptions"@[11] == 'c' && "ability_descriptions"@[12] == 'r' && "ability_descriptions"@[13] == 'i' && "ability_descriptions"@[14] == 'p' && "ability_descriptions"@[15] == 't' && "ability_descriptions"@[16] == 'i' && "ability_descriptions"@[17] == 'o' && "ability_descriptions"@[18] == 'n' && "ability_descriptions"@[19] == 's');
    reveal_strlit("area_names");
    assert("area_names"@.len() == 10 && "area_names"@[0] == 'a' && "area_names"@[1] == 'r' && "area_names"@[2] == 'e' && "area_names"@[3] == 'a' && "area_names"@[4] == '_' && "area_names"@[5] == 'n' && "area_names"@[6] == 'a' && "area_names"@[7] == 'm' && "area_names"@[8] == 'e' && "area_names"@[9] == 's');
    reveal_strlit("area_names_short");
    assert("area_names_short"@.len() == 16 && "area_names_short"@[0] == 'a' && "area_names_short"@[1] == 'r' && "area_names_short"@[2] == 'e' && "area_names_short"@[3] == 'a' && "area_names_short"@[4] == '_' && "area_names_short"@[5] == 'n' && "area_names_short"@[6] == 'a' && "area_names_short"@[7] == 'm' && "area_names_short"@[8] == 'e' && "area_names_short"@[9] == 's' && "area_names_short"@[10] == '_' && "area_names_short"@[11] == 's' && "area_names_short"@[12] == 'h' && "area_names_short"@[13] == 'o' && "area_names_short"@[14] == 'r' && "area_names_short"@[15] == 't');
    reveal_strlit("area_names_alt");
    assert("area_names_alt"@.len() == 14 && "area_names_alt"@[0] == 'a' && "area_names_alt"@[1] == 'r' && "area_names_alt"@[2] == 'e' && "area_names_alt"@[3] == 'a' && "area_names_alt"@[4] == '_' && "area_names_alt"@[5] == 'n' && "area_names_alt"@[6] == 'a' && "area_names_alt"@[7] == 'm' && "area_names_alt"@[8] == 'e' && "area_names_alt"@[9] == 's' && "area_names_alt"@[10] == '_' && "area_names_alt"@[11] == 'a' && "area_names_alt"@[12] == 'l' && "area_names_alt"@[13] == 't');
    reveal_strlit("augments");
    assert("augments"@.len() == 8 && "augments"@[0] == 'a' && "augments"@[1] == 'u' && "augments"@[2] == 'g' && "augments"@[3] == 'm' && "augments"@[4] == 'e' && "augments"@[5] == 'n' && "augments"@[6] == 't' && "augments"@[7] == 's');
    reveal_strlit("blue_magic");
    assert("blue_magic"@.len() == 10 && "blue_magic"@[0] == 'b' && "blue_magic"@[1] == 'l' && "blue_magic"@[2] == 'u' && "blue_magic"@[3] == 'e' && "blue_magic"@[4] == '_' && "blue_magic"@[5] == 'm' && "blue_magic"@[6] == 'a' && "blue_magic"@[7] == 'g' && "blue_magic"@[8] == 'i' && "blue_magic"@[9] == 'c');
    reveal_strlit("call_mount");
    assert("call_mount"@.len() == 10 && "call_mount"@[0] == 'c' && "call_mount"@[1] == 'a' && "call_mount"@[2] == 'l' && "call_mount"@[3] == 'l' && "call_mount"@[4] == '_' && "call_mount"@[5] == 'm' && "call_mount"@[6] == 'o' && "call_mount"@[7] == 'u' && "call_mount"@[8] == 'n' && "call_mount"@[9] == 't');
    reveal_strlit("character_select");
    assert("character_select"@.len() == 16 && "character_select"@[0] == 'c' && "character_select"@[1] == 'h' && "character_select"@[2] == 'a' && "character_select"@[3] == 'r' && "character_select"@[4] == 'a' && "character_select"@[5] == 'c' && "character_select"@[6] == 't' && "character_select"@[7] == 'e' && "character_select"@[8] == 'r' && "character_select"@[9] == '_' && "character_select"@[10] == 's' && "character_select"@[11] == 'e' && "character_select"@[12] == 'l' && "character_select"@[13] == 'e' && "character_select"@[14] == 'c' && "character_select"@[15] == 't');
    reveal_strlit("chat_filter_types");
    assert("chat_filter_types"@.len() == 17 && "chat_filter_types"@[0] == 'c' && "chat_filter_types"@[1] == 'h' && "chat_filter_types"@[2] == 'a' && "chat_filter_types"@[3] == 't' && "chat_filter_types"@[4] == '_' && "chat_filter_types"@[5] == 'f' && "chat_filter_types"@[6] == 'i' && "chat_filter_types"@[7] == 'l' && "chat_filter_types"@[8] == 't' && "chat_filter_types"@[9] == 'e' && "chat_filter_types"@[10] == 'r' && "chat_filter_types"@[11] == '_' && "chat_filter_types"@[12] == 't' && "chat_filter_types"@[13] == 'y' && "chat_filter_types"@[14] == 'p' && "chat_filter_types"@[15] == 'e' && "chat_filter_types"@[16] == 's');
    reveal_strlit("chocobo_names");
    assert("chocobo_names"@.len() == 13 && "chocobo_names"@[0] == 'c' && "chocobo_names"@[1] == 'h' && "chocobo_names"@[2] == 'o' && "chocobo_names"@[3] == 'c' && "chocobo_names"@[4] == 'o' && "chocobo_names"@[5] == 'b' && "chocobo_names"@[6] == 'o' && "chocobo_names"@[7] == '_' && "chocobo_names"@[8] == 'n' && "chocobo_names"@[9] == 'a' && "chocobo_names"@[10] == 'm' && "chocobo_names"@[11] == 'e' && "chocobo_names"@[12] == 's');
    reveal_strlit("command_usage");
    assert("command_usage"@.len() == 13 && "command_usage"@[0] == 'c' && "command_usage"@[1] == 'o' && "command_usage"@[2] == 'm' && "command_usage"@[3] == 'm' && "command_usage"@[4] == 'a' && "command_usage"@[5] == 'n' && "command_usage"@[6] == 'd' && "command_usage"@[7] == '_' && "command_usage"@[8] == 'u' && "command_usage"@[9] == 's' && "command_usage"@[10] == 'a' && "command_usage"@[11] == 'g' && "command_usage"@[12] == 'e');
    reveal_strlit("day_names");
    assert("day_names"@.len() == 9 && "day_names"@[0] == 'd' && "day_names"@[1] == 'a' && "day_names"@[2] == 'y' && "day_names"@[3] == '_' && "day_names"@[4] == 'n' && "day_names"@[5] == 'a' && "day_names"@[6] == 'm' && "day_names"@[7] == 'e' && "day_names"@[8] == 's');
    reveal_strlit("directions");
    assert("directions"@.len() == 10 && "directions"@[0] == 'd' && "directions"@[1] == 'i' && "directions"@[2] == 'r' && "directions"@[3] == 'e' && "directions"@[4] == 'c' && "directions"@[5] == 't' && "directions"@[6] == 'i' && "directions"@[7] == 'o' && "directions"@[8] == 'n' && "directions"@[9] == 's');
    reveal_strlit("einherjar_chambers");
    assert("einherjar_chambers"@.len() == 18 && "einherjar_chambers"@[0] == 'e' && "einherjar_chambers"@[1] == 'i' && "einherjar_chambers"@[2] == 'n' && "einherjar_chambers"@[3] == 'h' && "einherjar_chambers"@[4] == 'e' && "einherjar_chambers"@[5] == 'r' && "einherjar_chambers"@[6] == 'j' && "einherjar_chambers"@[7] == 'a' && "einherjar_chambers"@[8] == 'r' && "einherjar_chambers"@[9] == '_' && "einherjar_chambers"@[10] == 'c' && "einherjar_chambers"@[11] == 'h' && "einherjar_chambers"@[12] == 'a' && "einherjar_chambers"@[13] == 'm' && "einherjar_chambers"@[14] == 'b' && "einherjar_chambers"@[15] == 'e' && "einherjar_chambers"@[16] == 'r' && "einherjar_chambers"@[17] == 's');
    reveal_strlit("emotes");
    assert("emotes"@.len() == 6 && "emotes"@[0] == 'e' && "emotes"@[1] == 'm' && "emotes"@[2] == 'o' && "emotes"@[3] == 't' && "emotes"@[4] == 'e' && "emotes"@[5] == 's');
    reveal_strlit("equipment_locations");
    assert("equipment_locations"@.len() == 19 && "equipment_locations"@[0] == 'e' && "equipment_locations"@[1] == 'q' && "equipment_locations"@[2] == 'u' && "equipment_locations"@[3] == 'i' && "equipment_locations"@[4] == 'p' && "equipment_locations"@[5] == 'm' && "equipment_locations"@[6] == 'e' && "equipment_locations"@[7] == 'n' && "equipment_locations"@[8] == 't' && "equipment_locations"@[9] == '_' && "equipment_locations"@[10] == 'l' && "equipment_locations"@[11] == 'o' && "equipment_locations"@[12] == 'c' && "equipment_locations"@[13] == 'a' && "equipment_locations"@[14] == 't' && "equipment_locations"@[15] == 'i' && "equipment_locations"@[16] == 'o' && "equipment_locations"@[17] == 'n' && "equipment_locations"@[18] == 's');
    reveal_strlit("equipment_locations_alt");
    assert("equipment_locations_alt"@.len() == 23 && "equipment_locations_alt"@[0] == 'e' && "equipment_locations_alt"@[1] == 'q' && "equipment_locations_alt"@[2] == 'u' && "equipment_locations_alt"@[3] == 'i' && "equipment_locations_alt"@[4] == 'p' && "equipment_locations_alt"@[5] == 'm' && "equipment_locations_alt"@[6] == 'e' && "equipment_locations_alt"@[7] == 'n' && "equipment_locations_alt"@[8] == 't' && "equipment_locations_alt"@[9] == '_' && "equipment_locations_alt"@[10] == 'l' && "equipment_locations_alt"@[11] == 'o' && "equipment_locations_alt"@[12] == 'c' && "equipment_locations_alt"@[13] == 'a' && "equipment_locations_alt"@[14] == 't' && "equipment_locations_alt"@[15] == 'i' && "equipment_locations_alt"@[16] == 'o' && "equipment_locations_alt"@[17] == 'n' && "equipment_locations_alt"@[18] == 's' && "equipment_locations_alt"@[19] == '_' && "equipment_locations_alt"@[20] == 'a' && "equipment_locations_alt"@[21] == 'l' && "equipment_locations_alt"@[22] == 't');
    reveal_strlit("error_messages");
    assert("error_messages"@.len() == 14 && "error_messages"@[0] == 'e' && "error_messages"@[1] == 'r' && "error_messages"@[2] == 'r' && "error_messages"@[3] == 'o' && "error_messages"@[4] == 'r' && "error_messages"@[5] == '_' && "error_messages"@[6] == 'm' && "error_messages"@[7] == 'e' && "error_messages"@[8] == 's' && "error_messages"@[9] == 's' && "error_messages"@[10] == 'a' && "error_messages"@[11] == 'g' && "error_messages"@[12] == 'e' && "error_messages"@[13] == 's');
    reveal_strlit("ingame_messages1");
    assert("ingame_messages1"@.len() == 16 && "ingame_messages1"@[0] == 'i' && "ingame_messages1"@[1] == 'n' && "ingame_messages1"@[2] == 'g' && "ingame_messages1"@[3] == 'a' && "ingame_messages1"@[4] == 'm' && "ingame_messages1"@[5] == 'e' && "ingame_messages1"@[6] == '_' && "ingame_messages1"@[7] == 'm' && "ingame_messages1"@[8] == 'e' && "ingame_messages1"@[9] == 's' && "ingame_messages1"@[10] == 's' && "ingame_messages1"@[11] == 'a' && "ingame_messages1"@[12] == 'g' && "ingame_messages1"@[13] == 'e' && "ingame_messages1"@[14] == 's' && "ingame_messages1"@[15] == '1');
    reveal_strlit("ingame_messages2");
    assert("ingame_messages2"@.len() == 16 && "ingame_messages2"@[0] == 'i' && "ingame_messages2"@[1] == 'n' && "ingame_messages2"@[2] == 'g' && "ingame_messages2"@[3] == 'a' && "ingame_messages2"@[4] == 'm' && "ingame_messages2"@[5] == 'e' && "ingame_messages2"@[6] == '_' && "ingame_messages2"@[7] == 'm' && "ingame_messages2"@[8] == 'e' && "ingame_messages2"@[9] == 's' && "ingame_messages2"@[10] == 's' && "ingame_messages2"@[11] == 'a' && "ingame_messages2"@[12] == 'g' && "ingame_messages2"@[13] == 'e' && "ingame_messages2"@[14] == 's' && "ingame_messages2"@[15] == '2');
    reveal_strlit("job_names");
    assert("job_names"@.len() == 9 && "job_names"@[0] == 'j' && "job_names"@[1] == 'o' && "job_names"@[2] == 'b' && "job_names"@[3] == '_' && "job_names"@[4] == 'n' && "job_names"@[5] == 'a' && "job_names"@[6] == 'm' && "job_names"@[7] == 'e' && "job_names"@[8] == 's');
    reveal_strlit("job_names_short");
    assert("job_names_short"@.len() == 15 && "job_names_short"@[0] == 'j' && "job_names_short"@[1] == 'o' && "job_names_short"@[2] == 'b' && "job_names_short"@[3] == '_' && "job_names_short"@[4] == 'n' && "job_names_short"@[5] == 'a' && "job_names_short"@[6] == 'm' && "job_names_short"@[7] == 'e' && "job_names_short"@[8] == 's' && "job_names_short"@[9] == '_' && "job_names_short"@[10] == 's' && "job_names_short"@[11] == 'h' && "job_names_short"@[12] == 'o' && "job_names_short"@[13] == 'r' && "job_names_short"@[14] == 't');
    reveal_strlit("job_point_bonuses");
    assert("job_point_bonuses"@.len() == 17 && "job_point_bonuses"@[0] == 'j' && "job_point_bonuses"@[1] == 'o' && "job_point_bonuses"@[2] == 'b' && "job_point_bonuses"@[3] == '_' && "job_point_bonuses"@[4] == 'p' && "job_point_bonuses"@[5] == 'o' && "job_point_bonuses"@[6] == 'i' && "job_point_bonuses"@[7] == 'n' && "job_point_bonuses"@[8] == 't' && "job_point_bonuses"@[9] == '_' && "job_point_bonuses"@[10] == 'b' && "job_point_bonuses"@[11] == 'o' && "job_point_bonuses"@[12] == 'n' && "job_point_bonuses"@[13] == 'u' && "job_point_bonuses"@[14] == 's' && "job_point_bonuses"@[15] == 'e' && "job_point_bonuses"@[16] == 's');
    reveal_strlit("job_point_gifts");
    assert("job_point_gifts"@.len() == 15 && "job_point_gifts"@[0] == 'j' && "job_point_gifts"@[1] == 'o' && "job_point_gifts"@[2] == 'b' && "job_point_gifts"@[3] == '_' && "job_point_gifts"@[4] == 'p' && "job_point_gifts"@[5] == 'o' && "job_point_gifts"@[6] == 'i' && "job_point_gifts"@[7] == 'n' && "job_point_gifts"@[8] == 't' && "job_point_gifts"@[9] == '_' && "job_point_gifts"@[10] == 'g' && "job_point_gifts"@[11] == 'i' && "job_point_gifts"@[12] == 'f' && "job_point_gifts"@[13] == 't' && "job_point_gifts"@[14] == 's');
    reveal_strlit("key_items");
    assert("key_items"@.len() == 9 && "key_items"@[0] == 'k' && "key_items"@[1] == 'e' && "key_items"@[2] == 'y' && "key_items"@[3] == '_' && "key_items"@[4] == 'i' && "key_items"@[5] == 't' && "key_items"@[6] == 'e' && "key_items"@[7] == 'm' && "key_items"@[8] == 's');
    reveal_strlit("menu_items_description");
    assert("menu_items_description"@.len() == 22 && "menu_items_description"@[0] == 'm' && "menu_items_description"@[1] == 'e' && "menu_items_description"@[2] == 'n' && "menu_items_description"@[3] == 'u' && "menu_items_description"@[4] == '_' && "menu_items_description"@[5] == 'i' && "menu_items_description"@[6] == 't' && "menu_items_description"@[7] == 'e' && "menu_items_description"@[8] == 'm' && "menu_items_description"@[9] == 's' && "menu_items_description"@[10] == '_' && "menu_items_description"@[11] == 'd' && "menu_items_description"@[12] == 'e' && "menu_items_description"@[13] == 's' && "menu_items_description"@[14] == 'c' && "menu_items_description"@[15] == 'r' && "menu_items_description"@[16] == 'i' && "menu_items_description"@[17] == 'p' && "menu_items_description"@[18] == 't' && "menu_items_description"@[19] == 'i' && "menu_items_description"@[20] == 'o' && "menu_items_description"@[21] == 'n');
    reveal_strlit("menu_items_text");
    assert("menu_items_text"@.len() == 15 && "menu_items_text"@[0] == 'm' && "menu_items_text"@[1] == 'e' && "menu_items_text"@[2] == 'n' && "menu_items_text"@[3] == 'u' && "menu_items_text"@[4] == '_' && "menu_items_text"@[5] == 'i' && "menu_items_text"@[6] == 't' && "menu_items_text"@[7] == 'e' && "menu_items_text"@[8] == 'm' && "menu_items_text"@[9] == 's' && "menu_items_text"@[10] == '_' && "menu_items_text"@[11] == 't' && "menu_items_text"@[12] == 'e' && "menu_items_text"@[13] == 'x' && "menu_items_text"@[14] == 't');
    reveal_strlit("merits");
    assert("merits"@.len() == 6 && "merits"@[0] == 'm' && "merits"@[1] == 'e' && "merits"@[2] == 'r' && "merits"@[3] == 'i' && "merits"@[4] == 't' && "merits"@[5] == 's');
    reveal_strlit("missions_acp");
    assert("missions_acp"@.len() == 12 && "missions_acp"@[0] == 'm' && "missions_acp"@[1] == 'i' && "missions_acp"@[2] == 's' && "missions_acp"@[3] == 's' && "missions_acp"@[4] == 'i' && "missions_acp"@[5] == 'o' && "missions_acp"@[6] == 'n' && "missions_acp"@[7] == 's' && "missions_acp"@[8] == '_' && "missions_acp"@[9] == 'a' && "missions_acp"@[10] == 'c' && "missions_acp"@[11] == 'p');
    reveal_strlit("missions_amke");
    assert("missions_amke"@.len() == 13 && "missions_amke"@[0] == 'm' && "missions_amke"@[1] == 'i' && "missions_amke"@[2] == 's' && "missions_amke"@[3] == 's' && "missions_amke"@[4] == 'i' && "missions_amke"@[5] == 'o' && "missions_amke"@[6] == 'n' && "missions_amke"@[7] == 's' && "missions_amke"@[8] == '_' && "missions_amke"@[9] == 'a' && "missions_amke"@[10] == 'm' && "missions_amke"@[11] == 'k' && "missions_amke"@[12] == 'e');
    reveal_strlit("missions_asa");
    assert("missions_asa"@.len() == 12 && "missions_asa"@[0] == 'm' && "missions_asa"@[1] == 'i' && "missions_asa"@[2] == 's' && "missions_asa"@[3] == 's' && "missions_asa"@[4] == 'i' && "missions_asa"@[5] == 'o' && "missions_asa"@[6] == 'n' && "missions_asa"@[7] == 's' && "missions_asa"@[8] == '_' && "missions_asa"@[9] == 'a' && "missions_asa"@[10] == 's' && "missions_asa"@[11] == 'a');
    reveal_strlit("missions_assault");
    assert("missions_assault"@.len() == 16 && "missions_assault"@[0] == 'm' && "missions_assault"@[1] == 'i' && "missions_assault"@[2] == 's' && "missions_assault"@[3] == 's' && "missions_assault"@[4] == 'i' && "missions_assault"@[5] == 'o' && "missions_assault"@[6] == 'n' && "missions_assault"@[7] == 's' && "missions_assault"@[8] == '_' && "missions_assault"@[9] == 'a' && "missions_assault"@[10] == 's' && "missions_assault"@[11] == 's' && "missions_assault"@[12] == 'a' && "missions_assault"@[13] == 'u' && "missions_assault"@[14] == 'l' && "missions_assault"@[15] == 't');
    reveal_strlit("missions_bastok");
    assert("missions_bastok"@.len() == 15 && "missions_bastok"@[0] == 'm' && "missions_bastok"@[1] == 'i' && "missions_bastok"@[2] == 's' && "missions_bastok"@[3] == 's' && "missions_bastok"@[4] == 'i' && "missions_bastok"@[5] == 'o' && "missions_bastok"@[6] == 'n' && "missions_bastok"@[7] == 's' && "missions_bastok"@[8] == '_' && "missions_bastok"@[9] == 'b' && "missions_bastok"@[10] == 'a' && "missions_bastok"@[11] == 's' && "missions_bastok"@[12] == 't' && "missions_bastok"@[13] == 'o' && "missions_bastok"@[14] == 'k');
    reveal_strlit("missions_campaign");
    assert("missions_campaign"@.len() == 17 && "missions_campaign"@[0] == 'm' && "missions_campaign"@[1] == 'i' && "missions_campaign"@[2] == 's' && "missions_campaign"@[3] == 's' && "missions_campaign"@[4] == 'i' && "missions_campaign"@[5] == 'o' && "missions_campaign"@[6] == 'n' && "missions_campaign"@[7] == 's' && "missions_campaign"@[8] == '_' && "missions_campaign"@[9] == 'c' && "missions_campaign"@[10] == 'a' && "missions_campaign"@[11] == 'm' && "missions_campaign"@[12] == 'p' && "missions_campaign"@[13] == 'a' && "missions_campaign"@[14] == 'i' && "missions_campaign"@[15] == 'g' && "missions_campaign"@[16] == 'n');
    reveal_strlit("missions_cop");
    assert("missions_cop"@.len() == 12 && "missions_cop"@[0] == 'm' && "missions_cop"@[1] == 'i' && "missions_cop"@[2] == 's' && "missions_cop"@[3] == 's' && "missions_cop"@[4] == 'i' && "missions_cop"@[5] == 'o' && "missions_cop"@[6] == 'n' && "missions_cop"@[7] == 's' && "missions_cop"@[8] == '_' && "missions_cop"@[9] == 'c' && "missions_cop"@[10] == 'o' && "missions_cop"@[11] == 'p');
    reveal_strlit("missions_rov");
    assert("missions_rov"@.len() == 12 && "missions_rov"@[0] == 'm' && "missions_rov"@[1] == 'i' && "missions_rov"@[2] == 's' && "missions_rov"@[3] == 's' && "missions_rov"@[4] == 'i' && "missions_rov"@[5] == 'o' && "missions_rov"@[6] == 'n' && "missions_rov"@[7] == 's' && "missions_rov"@[8] == '_' && "missions_rov"@[9] == 'r' && "missions_rov"@[10] == 'o' && "missions_rov"@[11] == 'v');
    reveal_strlit("missions_sandoria");
    assert("missions_sandoria"@.len() == 17 && "missions_sandoria"@[0] == 'm' && "missions_sandoria"@[1] == 'i' && "missions_sandoria"@[2] == 's' && "missions_sandoria"@[3] == 's' && "missions_sandoria"@[4] == 'i' && "missions_sandoria"@[5] == 'o' && "missions_sandoria"@[6] == 'n' && "missions_sandoria"@[7] == 's' && "missions_sandoria"@[8] == '_' && "missions_sandoria"@[9] == 's' && "missions_sandoria"@[10] == 'a' && "missions_sandoria"@[11] == 'n' && "missions_sandoria"@[12] == 'd' && "missions_sandoria"@[13] == 'o' && "missions_sandoria"@[14] == 'r' && "missions_sandoria"@[15] == 'i' && "missions_sandoria"@[16] == 'a');
    reveal_strlit("missions_soa");
    assert("missions_soa"@.len() == 12 && "missions_soa"@[0] == 'm' && "missions_soa"@[1] == 'i' && "missions_soa"@[2] == 's' && "missions_soa"@[3] == 's' && "missions_soa"@[4] == 'i' && "missions_soa"@[5] == 'o' && "missions_soa"@[6] == 'n' && "missions_soa"@[7] == 's' && "missions_soa"@[8] == '_' && "missions_soa"@[9] == 's' && "missions_soa"@[10] == 'o' && "missions_soa"@[11] == 'a');
    reveal_strlit("missions_toau");
    assert("missions_toau"@.len() == 13 && "missions_toau"@[0] == 'm' && "missions_toau"@[1] == 'i' && "missions_toau"@[2] == 's' && "missions_toau"@[3] == 's' && "missions_toau"@[4] == 'i' && "missions_toau"@[5] == 'o' && "missions_toau"@[6] == 'n' && "missions_toau"@[7] == 's' && "missions_toau"@[8] == '_' && "missions_toau"@[9] == 't' && "missions_toau"@[10] == 'o' && "missions_toau"@[11] == 'a' && "missions_toau"@[12] == 'u');
    reveal_strlit("missions_windurst");
    assert("missions_windurst"@.len() == 17 && "missions_windurst"@[0] == 'm' && "missions_windurst"@[1] == 'i' && "missions_windurst"@[2] == 's' && "missions_windurst"@[3] == 's' && "missions_windurst"@[4] == 'i' && "missions_windurst"@[5] == 'o' && "missions_windurst"@[6] == 'n' && "missions_windurst"@[7] == 's' && "missions_windurst"@[8] == '_' && "missions_windurst"@[9] == 'w' && "missions_windurst"@[10] == 'i' && "missions_windurst"@[11] == 'n' && "missions_windurst"@[12] == 'd' && "missions_windurst"@[13] == 'u' && "missions_windurst"@[14] == 'r' && "missions_windurst"@[15] == 's' && "missions_windurst"@[16] == 't');
    reveal_strlit("missions_wotg");
    assert("missions_wotg"@.len() == 13 && "missions_wotg"@[0] == 'm' && "missions_wotg"@[1] == 'i' && "missions_wotg"@[2] == 's' && "missions_wotg"@[3] == 's' && "missions_wotg"@[4] == 'i' && "missions_wotg"@[5] == 'o' && "missions_wotg"@[6] == 'n' && "missions_wotg"@[7] == 's' && "missions_wotg"@[8] == '_' && "missions_wotg"@[9] == 'w' && "missions_wotg"@[10] == 'o' && "missions_wotg"@[11] == 't' && "missions_wotg"@[12] == 'g');
    reveal_strlit("missions_zilart");
    assert("missions_zilart"@.len() == 15 && "missions_zilart"@[0] == 'm' && "missions_zilart"@[1] == 'i' && "missions_zilart"@[2] == 's' && "missions_zilart"@[3] == 's' && "missions_zilart"@[4] == 'i' && "missions_zilart"@[5] == 'o' && "missions_zilart"@[6] == 'n' && "missions_zilart"@[7] == 's' && "missions_zilart"@[8] == '_' && "missions_zilart"@[9] == 'z' && "missions_zilart"@[10] == 'i' && "missions_zilart"@[11] == 'l' && "missions_zilart"@[12] == 'a' && "missions_zilart"@[13] == 'r' && "missions_zilart"@[14] == 't');
    reveal_strlit("moblin_maze_mongers");
    assert("moblin_maze_mongers"@.len() == 19 && "moblin_maze_mongers"@[0] == 'm' && "moblin_maze_mongers"@[1] == 'o' && "moblin_maze_mongers"@[2] == 'b' && "moblin_maze_mongers"@[3] == 'l' && "moblin_maze_mongers"@[4] == 'i' && "moblin_maze_mongers"@[5] == 'n' && "moblin_maze_mongers"@[6] == '_' && "moblin_maze_mongers"@[7] == 'm' && "moblin_maze_mongers"@[8] == 'a' && "moblin_maze_mongers"@[9] == 'z' && "moblin_maze_mongers"@[10] == 'e' && "moblin_maze_mongers"@[11] == '_' && "moblin_maze_mongers"@[12] == 'm' && "moblin_maze_mongers"@[13] == 'o' && "moblin_maze_mongers"@[14] == 'n' && "moblin_maze_mongers"@[15] == 'g' && "moblin_maze_mongers"@[16] == 'e' && "moblin_maze_mongers"@[17] == 'r' && "moblin_maze_mongers"@[18] == 's');
    reveal_strlit("modifiers");
    assert("modifiers"@.len() == 9 && "modifiers"@[0] == 'm' && "modifiers"@[1] == 'o' && "modifiers"@[2] == 'd' && "modifiers"@[3] == 'i' && "modifiers"@[4] == 'f' && "modifiers"@[5] == 'i' && "modifiers"@[6] == 'e' && "modifiers"@[7] == 'r' && "modifiers"@[8] == 's');
    reveal_strlit("monster_families");
    assert("monster_families"@.len() == 16 && "monster_families"@[0] == 'm' && "monster_families"@[1] == 'o' && "monster_families"@[2] == 'n' && "monster_families"@[3] == 's' && "monster_families"@[4] == 't' && "monster_families"@[5] == 'e' && "monster_families"@[6] == 'r' && "monster_families"@[7] == '_' && "monster_families"@[8] == 'f' && "monster_families"@[9] == 'a' && "monster_families"@[10] == 'm' && "monster_families"@[11] == 'i' && "monster_families"@[12] == 'l' && "monster_families"@[13] == 'i' && "monster_families"@[14] == 'e' && "monster_families"@[15] == 's');
    reveal_strlit("moon_phases");
    assert("moon_phases"@.len() == 11 && "moon_phases"@[0] == 'm' && "moon_phases"@[1] == 'o' && "moon_phases"@[2] == 'o' && "moon_phases"@[3] == 'n' && "moon_phases"@[4] == '_' && "moon_phases"@[5] == 'p' && "moon_phases"@[6] == 'h' && "moon_phases"@[7] == 'a' && "moon_phases"@[8] == 's' && "moon_phases"@[9] == 'e' && "moon_phases"@[10] == 's');
    reveal_strlit("pankration_names");
    assert("pankration_names"@.len() == 16 && "pankration_names"@[0] == 'p' && "pankration_names"@[1] == 'a' && "pankration_names"@[2] == 'n' && "pankration_names"@[3] == 'k' && "pankration_names"@[4] == 'r' && "pankration_names"@[5] == 'a' && "pankration_names"@[6] == 't' && "pankration_names"@[7] == 'i' && "pankration_names"@[8] == 'o' && "pankration_names"@[9] == 'n' && "pankration_names"@[10] == '_' && "pankration_names"@[11] == 'n' && "pankration_names"@[12] == 'a' && "pankration_names"@[13] == 'm' && "pankration_names"@[14] == 'e' && "pankration_names"@[15] == 's');
    reveal_strlit("pol_messages");
    assert("pol_messages"@.len() == 12 && "pol_messages"@[0] == 'p' && "pol_messages"@[1] == 'o' && "pol_messages"@[2] == 'l' && "pol_messages"@[3] == '_' && "pol_messages"@[4] == 'm' && "pol_messages"@[5] == 'e' && "pol_messages"@[6] == 's' && "pol_messages"@[7] == 's' && "pol_messages"@[8] == 'a' && "pol_messages"@[9] == 'g' && "pol_messages"@[10] == 'e' && "pol_messages"@[11] == 's');
    reveal_strlit("quests_abyssea");
    assert("quests_abyssea"@.len() == 14 && "quests_abyssea"@[0] == 'q' && "quests_abyssea"@[1] == 'u' && "quests_abyssea"@[2] == 'e' && "quests_abyssea"@[3] == 's' && "quests_abyssea"@[4] == 't' && "quests_abyssea"@[5] == 's' && "quests_abyssea"@[6] == '_' && "quests_abyssea"@[7] == 'a' && "quests_abyssea"@[8] == 'b' && "quests_abyssea"@[9] == 'y' && "quests_abyssea"@[10] == 's' && "quests_abyssea"@[11] == 's' && "quests_abyssea"@[12] == 'e' && "quests_abyssea"@[13] == 'a');
    reveal_strlit("quests_bastok");
    assert("quests_bastok"@.len() == 13 && "quests_bastok"@[0] == 'q' && "quests_bastok"@[1] == 'u' && "quests_bastok"@[2] == 'e' && "quests_bastok"@[3] == 's' && "quests_bastok"@[4] == 't' && "quests_bastok"@[5] == 's' && "quests_bastok"@[6] == '_' && "quests_bastok"@[7] == 'b' && "quests_bastok"@[8] == 'a' && "quests_bastok"@[9] == 's' && "quests_bastok"@[10] == 't' && "quests_bastok"@[11] == 'o' && "quests_bastok"@[12] == 'k');
    reveal_strlit("quests_coalition");
    assert("quests_coalition"@.len() == 16 && "quests_coalition"@[0] == 'q' && "quests_coalition"@[1] == 'u' && "quests_coalition"@[2] == 'e' && "quests_coalition"@[3] == 's' && "quests_coalition"@[4] == 't' && "quests_coalition"@[5] == 's' && "quests_coalition"@[6] == '_' && "quests_coalition"@[7] == 'c' && "quests_coalition"@[8] == 'o' && "quests_coalition"@[9] == 'a' && "quests_coalition"@[10] == 'l' && "quests_coalition"@[11] == 'i' && "quests_coalition"@[12] == 't' && "quests_coalition"@[13] == 'i' && "quests_coalition"@[14] == 'o' && "quests_coalition"@[15] == 'n');
    reveal_strlit("quests_jeuno");
    assert("quests_jeuno"@.len() == 12 && "quests_jeuno"@[0] == 'q' && "quests_jeuno"@[1] == 'u' && "quests_jeuno"@[2] == 'e' && "quests_jeuno"@[3] == 's' && "quests_jeuno"@[4] == 't' && "quests_jeuno"@[5] == 's' && "quests_jeuno"@[6] == '_' && "quests_jeuno"@[7] == 'j' && "quests_jeuno"@[8] == 'e' && "quests_jeuno"@[9] == 'u' && "quests_jeuno"@[10] == 'n' && "quests_jeuno"@[11] == 'o');
    reveal_strlit("quests_other");
    assert("quests_other"@.len() == 12 && "quests_other"@[0] == 'q' && "quests_other"@[1] == 'u' && "quests_other"@[2] == 'e' && "quests_other"@[3] == 's' && "quests_other"@[4] == 't' && "quests_other"@[5] == 's' && "quests_other"@[6] == '_' && "quests_other"@[7] == 'o' && "quests_other"@[8] == 't' && "quests_other"@[9] == 'h' && "quests_other"@[10] == 'e' && "quests_other"@[11] == 'r');
    reveal_strlit("quests_outlands");
    assert("quests_outlands"@.len() == 15 && "quests_outlands"@[0] == 'q' && "quests_outlands"@[1] == 'u' && "quests_outlands"@[2] == 'e' && "quests_outlands"@[3] == 's' && "quests_outlands"@[4] == 't' && "quests_outlands"@[5] == 's' && "quests_outlands"@[6] == '_' && "quests_outlands"@[7] == 'o' && "quests_outlands"@[8] == 'u' && "quests_outlands"@[9] == 't' && "quests_outlands"@[10] == 'l' && "quests_outlands"@[11] == 'a' && "quests_outlands"@[12] == 'n' && "quests_outlands"@[13] == 'd' && "quests_outlands"@[14] == 's');
    reveal_strlit("quests_sandoria");
    assert("quests_sandoria"@.len() == 15 && "quests_sandoria"@[0] == 'q' && "quests_sandoria"@[1] == 'u' && "quests_sandoria"@[2] == 'e' && "quests_sandoria"@[3] == 's' && "quests_sandoria"@[4] == 't' && "quests_sandoria"@[5] == 's' && "quests_sandoria"@[6] == '_' && "quests_sandoria"@[7] == 's' && "quests_sandoria"@[8] == 'a' && "quests_sandoria"@[9] == 'n' && "quests_sandoria"@[10] == 'd' && "quests_sandoria"@[11] == 'o' && "quests_sandoria"@[12] == 'r' && "quests_sandoria"@[13] == 'i' && "quests_sandoria"@[14] == 'a');
    reveal_strlit("quests_soa");
    assert("quests_soa"@.len() == 10 && "quests_soa"@[0] == 'q' && "quests_soa"@[1] == 'u' && "quests_soa"@[2] == 'e' && "quests_soa"@[3] == 's' && "quests_soa"@[4] == 't' && "quests_soa"@[5] == 's' && "quests_soa"@[6] == '_' && "quests_soa"@[7] == 's' && "quests_soa"@[8] == 'o' && "quests_soa"@[9] == 'a');
    reveal_strlit("quests_toau");
    assert("quests_toau"@.len() == 11 && "quests_toau"@[0] == 'q' && "quests_toau"@[1] == 'u' && "quests_toau"@[2] == 'e' && "quests_toau"@[3] == 's' && "quests_toau"@[4] == 't' && "quests_toau"@[5] == 's' && "quests_toau"@[6] == '_' && "quests_toau"@[7] == 't' && "quests_toau"@[8] == 'o' && "quests_toau"@[9] == 'a' && "quests_toau"@[10] == 'u');
    reveal_strlit("quests_windurst");
    assert("quests_windurst"@.len() == 15 && "quests_windurst"@[0] == 'q' && "quests_windurst"@[1] == 'u' && "quests_windurst"@[2] == 'e' && "quests_windurst"@[3] == 's' && "quests_windurst"@[4] == 't' && "quests_windurst"@[5] == 's' && "quests_windurst"@[6] == '_' && "quests_windurst"@[7] == 'w' && "quests_windurst"@[8] == 'i' && "quests_windurst"@[9] == 'n' && "quests_windurst"@[10] == 'd' && "quests_windurst"@[11] == 'u' && "quests_windurst"@[12] == 'r' && "quests_windurst"@[13] == 's' && "quests_windurst"@[14] == 't');
    reveal_strlit("quests_wotg");
    assert("quests_wotg"@.len() == 11 && "quests_wotg"@[0] == 'q' && "quests_wotg"@[1] == 'u' && "quests_wotg"@[2] == 'e' && "quests_wotg"@[3] == 's' && "quests_wotg"@[4] == 't' && "quests_wotg"@[5] == 's' && "quests_wotg"@[6] == '_' && "quests_wotg"@[7] == 'w' && "quests_wotg"@[8] == 'o' && "quests_wotg"@[9] == 't' && "quests_wotg"@[10] == 'g');
    reveal_strlit("race_names");
    assert("race_names"@.len() == 10 && "race_names"@[0] == 'r' && "race_names"@[1] == 'a' && "race_names"@[2] == 'c' && "race_names"@[3] == 'e' && "race_names"@[4] == '_' && "race_names"@[5] == 'n' && "race_names"@[6] == 'a' && "race_names"@[7] == 'm' && "race_names"@[8] == 'e' && "race_names"@[9] == 's');
    reveal_strlit("region_names");
    assert("region_names"@.len() == 12 && "region_names"@[0] == 'r' && "region_names"@[1] == 'e' && "region_names"@[2] == 'g' && "region_names"@[3] == 'i' && "region_names"@[4] == 'o' && "region_names"@[5] == 'n' && "region_names"@[6] == '_' && "region_names"@[7] == 'n' && "region_names"@[8] == 'a' && "region_names"@[9] == 'm' && "region_names"@[10] == 'e' && "region_names"@[11] == 's');
    reveal_strlit("server_names");
    assert("server_names"@.len() == 12 && "server_names"@[0] == 's' && "server_names"@[1] == 'e' && "server_names"@[2] == 'r' && "server_names"@[3] == 'v' && "server_names"@[4] == 'e' && "server_names"@[5] == 'r' && "server_names"@[6] == '_' && "server_names"@[7] == 'n' && "server_names"@[8] == 'a' && "server_names"@[9] == 'm' && "server_names"@[10] == 'e' && "server_names"@[11] == 's');
    reveal_strlit("spell_names");
    assert("spell_names"@.len() == 11 && "spell_names"@[0] == 's' && "spell_names"@[1] == 'p' && "spell_names"@[2] == 'e' && "spell_names"@[3] == 'l' && "spell_names"@[4] == 'l' && "spell_names"@[5] == '_' && "spell_names"@[6] == 'n' && "spell_names"@[7] == 'a' && "spell_names"@[8] == 'm' && "spell_names"@[9] == 'e' && "spell_names"@[10] == 's');
    reveal_strlit("spell_descriptions");
    assert("spell_descriptions"@.len() == 18 && "spell_descriptions"@[0] == 's' && "spell_descriptions"@[1] == 'p' && "spell_descriptions"@[2] == 'e' && "spell_descriptions"@[3] == 'l' && "spell_descriptions"@[4] == 'l' && "spell_descriptions"@[5] == '_' && "spell_descriptions"@[6] == 'd' && "spell_descriptions"@[7] == 'e' && "spell_descriptions"@[8] == 's' && "spell_descriptions"@[9] == 'c' && "spell_descriptions"@[10] == 'r' && "spell_descriptions"@[11] == 'i' && "spell_descriptions"@[12] == 'p' && "spell_descriptions"@[13] == 't' && "spell_descriptions"@[14] == 'i' && "spell_descriptions"@[15] == 'o' && "spell_descriptions"@[16] == 'n' && "spell_descriptions"@[17] == 's');
    reveal_strlit("status_info");
    assert("status_info"@.len() == 11 && "status_info"@[0] == 's' && "status_info"@[1] == 't' && "status_info"@[2] == 'a' && "status_info"@[3] == 't' && "status_info"@[4] == 'u' && "status_info"@[5] == 's' && "status_info"@[6] == '_' && "status_info"@[7] == 'i' && "status_info"@[8] == 'n' && "status_info"@[9] == 'f' && "status_info"@[10] == 'o');
    reveal_strlit("status_names");
    assert("status_names"@.len() == 12 && "status_names"@[0] == 's' && "status_names"@[1] == 't' && "status_names"@[2] == 'a' && "status_names"@[3] == 't' && "status_names"@[4] == 'u' && "status_names"@[5] == 's' && "status_names"@[6] == '_' && "status_names"@[7] == 'n' && "status_names"@[8] == 'a' && "status_names"@[9] == 'm' && "status_names"@[10] == 'e' && "status_names"@[11] == 's');
    reveal_strlit("time_and_pronouns");
    assert("time_and_pronouns"@.len() == 17 && "time_and_pronouns"@[0] == 't' && "time_and_pronouns"@[1] == 'i' && "time_and_pronouns"@[2] == 'm' && "time_and_pronouns"@[3] == 'e' && "time_and_pronouns"@[4] == '_' && "time_and_pronouns"@[5] == 'a' && "time_and_pronouns"@[6] == 'n' && "time_and_pronouns"@[7] == 'd' && "time_and_pronouns"@[8] == '_' && "time_and_pronouns"@[9] == 'p' && "time_and_pronouns"@[10] == 'r' && "time_and_pronouns"@[11] == 'o' && "time_and_pronouns"@[12] == 'n' && "time_and_pronouns"@[13] == 'o' && "time_and_pronouns"@[14] == 'u' && "time_and_pronouns"@[15] == 'n' && "time_and_pronouns"@[16] == 's');
    reveal_strlit("titles");
    assert("titles"@.len() == 6 && "titles"@[0] == 't' && "titles"@[1] == 'i' && "titles"@[2] == 't' && "titles"@[3] == 'l' && "titles"@[4] == 'e' && "titles"@[5] == 's');
    reveal_strlit("trust_messages");
    assert("trust_messages"@.len() == 14 && "trust_messages"@[0] == 't' && "trust_messages"@[1] == 'r' && "trust_messages"@[2] == 'u' && "trust_messages"@[3] == 's' && "trust_messages"@[4] == 't' && "trust_messages"@[5] == '_' && "trust_messages"@[6] == 'm' && "trust_messages"@[7] == 'e' && "trust_messages"@[8] == 's' && "trust_messages"@[9] == 's' && "trust_messages"@[10] == 'a' && "trust_messages"@[11] == 'g' && "trust_messages"@[12] == 'e' && "trust_messages"@[13] == 's');
    reveal_strlit("misc1");
    assert("misc1"@.len() == 5 && "misc1"@[0] == 'm' && "misc1"@[1] == 'i' && "misc1"@[2] == 's' && "misc1"@[3] == 'c' && "misc1"@[4] == '1');
    reveal_strlit("misc2");
    assert("misc2"@.len() == 5 && "misc2"@[0] == 'm' && "misc2"@[1] == 'i' && "misc2"@[2] == 's' && "misc2"@[3] == 'c' && "misc2"@[4] == '2');
    reveal_strlit("weather_types");
    assert("weather_types"@.len() == 13 && "weather_types"@[0] == 'w' && "weather_types"@[1] == 'e' && "weather_types"@[2] == 'a' && "weather_types"@[3] == 't' && "weather_types"@[4] == 'h' && "weather_types"@[5] == 'e' && "weather_types"@[6] == 'r' && "weather_types"@[7] == '_' && "weather_types"@[8] == 't' && "weather_types"@[9] == 'y' && "weather_types"@[10] == 'p' && "weather_types"@[11] == 'e' && "weather_types"@[12] == 's');
    let p = d.plain_name().unwrap();
    assert(plain_prefix(p, p.len() as int)) by {
        reveal_with_fuel(plain_prefix, 25);
    }
    lemma_plain_name(p);
    lemma_root_path(p, zones);
}
/// Each item DAT is found again from its YAML file under `items`.
#[verifier::rlimit(100)]
proof fn lemma_item_yaml_paths(d: DatDescriptor, zones: Seq<(u16, String)>)
    requires
        yaml_table(d) == 1,
    ensures
        descriptor_from_path_spec(d.plain_name().unwrap() + yml(), zones) == Some(d),
{
    lemma_directory_names();
    reveal_strlit("armor");
    assert("armor"@.len() == 5 && "armor"@[0] == 'a' && "armor"@[1] == 'r' && "armor"@[2] == 'm' && "armor"@[3] == 'o' && "armor"@[4] == 'r');
    reveal_strlit("armor2");
    assert("armor2"@.len() == 6 && "armor2"@[0] == 'a' && "armor2"@[1] == 'r' && "armor2"@[2] == 'm' && "armor2"@[3] == 'o' && "armor2"@[4] == 'r' && "armor2"@[5] == '2');
    reveal_strlit("currency");
    assert("currency"@.len() == 8 && "currency"@[0] == 'c' && "currency"@[1] == 'u' && "currency"@[2] == 'r' && "currency"@[3] == 'r' && "currency"@[4] == 'e' && "currency"@[5] == 'n' && "currency"@[6] == 'c' && "currency"@[7] == 'y');
    reveal_strlit("general_items");
    assert("general_items"@.len() == 13 && "general_items"@[0] == 'g' && "general_items"@[1] == 'e' && "general_items"@[2] == 'n' && "general_items"@[3] == 'e' && "general_items"@[4] == 'r' && "general_items"@[5] == 'a' && "general_items"@[6] == 'l' && "general_items"@[7] == '_' && "general_items"@[8] == 'i' && "general_items"@[9] == 't' && "general_items"@[10] == 'e' && "general_items"@[11] == 'm' && "general_items"@[12] == 's');
    reveal_strlit("general_items2");
    assert("general_items2"@.len() == 14 && "general_items2"@[0] == 'g' && "general_items2"@[1] == 'e' && "general_items2"@[2] == 'n' && "general_items2"@[3] == 'e' && "general_items2"@[4] == 'r' && "general_items2"@[5] == 'a' && "general_items2"@[6] == 'l' && "general_items2"@[7] == '_' && "general_items2"@[8] == 'i' && "general_items2"@[9] == 't' && "general_items2"@[10] == 'e' && "general_items2"@[11] == 'm' && "general_items2"@[12] == 's' && "general_items2"@[13] == '2');
    reveal_strlit("puppet_items");
    assert("puppet_items"@.len() == 12 && "puppet_items"@[0] == 'p' && "puppet_items"@[1] == 'u' && "puppet_items"@[2] == 'p' && "puppet_items"@[3] == 'p' && "puppet_items"@[4] == 'e' && "puppet_items"@[5] == 't' && "puppet_items"@[6] == '_' && "puppet_items"@[7] == 'i' && "puppet_items"@[8] == 't' && "puppet_items"@[9] == 'e' && "puppet_items"@[10] == 'm' && "puppet_items"@[11] == 's');
    reveal_strlit("usable_items");
    assert("usable_items"@.len() == 12 && "usable_items"@[0] == 'u' && "usable_items"@[1] == 's' && "usable_items"@[2] == 'a' && "usable_items"@[3] == 'b' && "usable_items"@[4] == 'l' && "usable_items"@[5] == 'e' && "usable_items"@[6] == '_' && "usable_items"@[7] == 'i' && "usable_items"@[8] == 't' && "usable_items"@[9] == 'e' && "usable_items"@[10] == 'm' && "usable_items"@[11] == 's');
    reveal_strlit("weapons");
    assert("weapons"@.len() == 7 && "weapons"@[0] == 'w' && "weapons"@[1] == 'e' && "weapons"@[2] == 'a' && "weapons"@[3] == 'p' && "weapons"@[4] == 'o' && "weapons"@[5] == 'n' && "weapons"@[6] == 's');
    reveal_strlit("vouchers_and_slips");
    assert("vouchers_and_slips"@.len() == 18 && "vouchers_and_slips"@[0] == 'v' && "vouchers_and_slips"@[1] == 'o' && "vouchers_and_slips"@[2] == 'u' && "vouchers_and_slips"@[3] == 'c' && "vouchers_and_slips"@[4] == 'h' && "vouchers_and_slips"@[5] == 'e' && "vouchers_and_slips"@[6] == 'r' && "vouchers_and_slips"@[7] == 's' && "vouchers_and_slips"@[8] == '_' && "vouchers_and_slips"@[9] == 'a' && "vouchers_and_slips"@[10] == 'n' && "vouchers_and_slips"@[11] == 'd' && "vouchers_and_slips"@[12] == '_' && "vouchers_and_slips"@[13] == 's' && "vouchers_and_slips"@[14] == 'l' && "vouchers_and_slips"@[15] == 'i' && "vouchers_and_slips"@[16] == 'p' && "vouchers_and_slips"@[17] == 's');
    reveal_strlit("monipulator");
    assert("monipulator"@.len() == 11 && "monipulator"@[0] == 'm' && "monipulator"@[1] == 'o' && "monipulator"@[2] == 'n' && "monipulator"@[3] == 'i' && "monipulator"@[4] == 'p' && "monipulator"@[5] == 'u' && "monipulator"@[6] == 'l' && "monipulator"@[7] == 'a' && "monipulator"@[8] == 't' && "monipulator"@[9] == 'o' && "monipulator"@[10] == 'r');
    reveal_strlit("instincts");
    assert("instincts"@.len() == 9 && "instincts"@[0] == 'i' && "instincts"@[1] == 'n' && "instincts"@[2] == 's' && "instincts"@[3] == 't' && "instincts"@[4] == 'i' && "instincts"@[5] == 'n' && "instincts"@[6] == 'c' && "instincts"@[7] == 't' && "instincts"@[8] == 's');
    reveal_strlit("items/armor");
    assert("items/armor"@.len() == 11 && "items/armor"@[0] == 'i' && "items/armor"@[1] == 't' && "items/armor"@[2] == 'e' && "items/armor"@[3] == 'm' && "items/armor"@[4] == 's' && "items/armor"@[5] == '/' && "items/armor"@[6] == 'a' && "items/armor"@[7] == 'r' && "items/armor"@[8] == 'm' && "items/armor"@[9] == 'o' && "items/armor"@[10] == 'r');
    reveal_strlit("items/armor2");
    assert("items/armor2"@.len() == 12 && "items/armor2"@[0] == 'i' && "items/armor2"@[1] == 't' && "items/armor2"@[2] == 'e' && "items/armor2"@[3] == 'm' && "items/armor2"@[4] == 's' && "items/armor2"@[5] == '/' && "items/armor2"@[6] == 'a' && "items/armor2"@[7] == 'r' && "items/armor2"@[8] == 'm' && "items/armor2"@[9] == 'o' && "items/armor2"@[10] == 'r' && "items/armor2"@[11] == '2');
    reveal_strlit("items/currency");
    assert("items/currency"@.len() == 14 && "items/currency"@[0] == 'i' && "items/currency"@[1] == 't' && "items/currency"@[2] == 'e' && "items/currency"@[3] == 'm' && "items/currency"@[4] == 's' && "items/currency"@[5] == '/' && "items/currency"@[6] == 'c' && "items/currency"@[7] == 'u' && "items/currency"@[8] == 'r' && "items/currency"@[9] == 'r' && "items/currency"@[10] == 'e' && "items/currency"@[11] == 'n' && "items/currency"@[12] == 'c' && "items/currency"@[13] == 'y');
    reveal_strlit("items/general_items");
    assert("items/general_items"@.len() == 19 && "items/general_items"@[0] == 'i' && "items/general_items"@[1] == 't' && "items/general_items"@[2] == 'e' && "items/general_items"@[3] == 'm' && "items/general_items"@[4] == 's' && "items/general_items"@[5] == '/' && "items/general_items"@[6] == 'g' && "items/general_items"@[7] == 'e' && "items/general_items"@[8] == 'n' && "items/general_items"@[9] == 'e' && "items/general_items"@[10] == 'r' && "items/general_items"@[11] == 'a' && "items/general_items"@[12] == 'l' && "items/general_items"@[13] == '_' && "items/general_items"@[14] == 'i' && "items/general_items"@[15] == 't' && "items/general_items"@[16] == 'e' && "items/general_items"@[17] == 'm' && "items/general_items"@[18] == 's');
    reveal_strlit("items/general_items2");
    assert("items/general_items2"@.len() == 20 && "items/general_items2"@[0] == 'i' && "items/general_items2"@[1] == 't' && "items/general_items2"@[2] == 'e' && "items/general_items2"@[3] == 'm' && "items/general_items2"@[4] == 's' && "items/general_items2"@[5] == '/' && "items/general_items2"@[6] == 'g' && "items/general_items2"@[7] == 'e' && "items/general_items2"@[8] == 'n' && "items/general_items2"@[9] == 'e' && "items/general_items2"@[10] == 'r' && "items/general_items2"@[11] == 'a' && "items/general_items2"@[12] == 'l' && "items/general_items2"@[13] == '_' && "items/general_items2"@[14] == 'i' && "items/general_items2"@[15] == 't' && "items/general_items2"@[16] == 'e' && "items/general_items2"@[17] == 'm' && "items/general_items2"@[18] == 's' && "items/general_items2"@[19] == '2');
    reveal_strlit("items/puppet_items");
    assert("items/puppet_items"@.len() == 18 && "items/puppet_items"@[0] == 'i' && "items/puppet_items"@[1] == 't' && "items/puppet_items"@[2] == 'e' && "items/puppet_items"@[3] == 'm' && "items/puppet_items"@[4] == 's' && "items/puppet_items"@[5] == '/' && "items/puppet_items"@[6] == 'p' && "items/puppet_items"@[7] == 'u' && "items/puppet_items"@[8] == 'p' && "items/puppet_items"@[9] == 'p' && "items/puppet_items"@[10] == 'e' && "items/puppet_items"@[11] == 't' && "items/puppet_items"@[12] == '_' && "items/puppet_items"@[13] == 'i' && "items/puppet_items"@[14] == 't' && "items/puppet_items"@[15] == 'e' && "items/puppet_items"@[16] == 'm' && "items/puppet_items"@[17] == 's');
    reveal_strlit("items/usable_items");
    assert("items/usable_items"@.len() == 18 && "items/usable_items"@[0] == 'i' && "items/usable_items"@[1] == 't' && "items/usable_items"@[2] == 'e' && "items/usable_items"@[3] == 'm' && "items/usable_items"@[4] == 's' && "items/usable_items"@[5] == '/' && "items/usable_items"@[6] == 'u' && "items/usable_items"@[7] == 's' && "items/usable_items"@[8] == 'a' && "items/usable_items"@[9] == 'b' && "items/usable_items"@[10] == 'l' && "items/usable_items"@[11] == 'e' && "items/usable_items"@[12] == '_' && "items/usable_items"@[13] == 'i' && "items/usable_items"@[14] == 't' && "items/usable_items"@[15] == 'e' && "items/usable_items"@[16] == 'm' && "items/usable_items"@[17] == 's');
    reveal_strlit("items/weapons");
    assert("items/weapons"@.len() == 13 && "items/weapons"@[0] == 'i' && "items/weapons"@[1] == 't' && "items/weapons"@[2] == 'e' && "items/weapons"@[3] == 'm' && "items/weapons"@[4] == 's' && "items/weapons"@[5] == '/' && "items/weapons"@[6] == 'w' && "items/weapons"@[7] == 'e' && "items/weapons"@[8] == 'a' && "items/weapons"@[9] == 'p' && "items/weapons"@[10] == 'o' && "items/weapons"@[11] == 'n' && "items/weapons"@[12] == 's');
    reveal_strlit("items/vouchers_and_slips");
    assert("items/vouchers_and_slips"@.len() == 24 && "items/vouchers_and_slips"@[0] == 'i' && "items/vouchers_and_slips"@[1] == 't' && "items/vouchers_and_slips"@[2] == 'e' && "items/vouchers_and_slips"@[3] == 'm' && "items/vouchers_and_slips"@[4] == 's' && "items/vouchers_and_slips"@[5] == '/' && "items/vouchers_and_slips"@[6] == 'v' && "items/vouchers_and_slips"@[7] == 'o' && "items/vouchers_and_slips"@[8] == 'u' && "items/vouchers_and_slips"@[9] == 'c' && "items/vouchers_and_slips"@[10] == 'h' && "items/vouchers_and_slips"@[11] == 'e' && "items/vouchers_and_slips"@[12] == 'r' && "items/vouchers_and_slips"@[13] == 's' && "items/vouchers_and_slips"@[14] == '_' && "items/vouchers_and_slips"@[15] == 'a' && "items/vouchers_and_slips"@[16] == 'n' && "items/vouchers_and_slips"@[17] == 'd' && "items/vouchers_and_slips"@[18] == '_' && "items/vouchers_and_slips"@[19] == 's' && "items/vouchers_and_slips"@[20] == 'l' && "items/vouchers_and_slips"@[21] == 'i' && "items/vouchers_and_slips"@[22] == 'p' && "items/vouchers_and_slips"@[23] == 's');
    reveal_strlit("items/monipulator");
    assert("items/monipulator"@.len() == 17 && "items/monipulator"@[0] == 'i' && "items/monipulator"@[1] == 't' && "items/monipulator"@[2] == 'e' && "items/monipulator"@[3] == 'm' && "items/monipulator"@[4] == 's' && "items/monipulator"@[5] == '/' && "items/monipulator"@[6] == 'm' && "items/monipulator"@[7] == 'o' && "items/monipulator"@[8] == 'n' && "items/monipulator"@[9] == 'i' && "items/monipulator"@[10] == 'p' && "items/monipulator"@[11] == 'u' && "items/monipulator"@[12] == 'l' && "items/monipulator"@[13] == 'a' && "items/monipulator"@[14] == 't' && "items/monipulator"@[15] == 'o' && "items/monipulator"@[16] == 'r');
    reveal_strlit("items/instincts");
    assert("items/instincts"@.len() == 15 && "items/instincts"@[0] == 'i' && "items/instincts"@[1] == 't' && "items/instincts"@[2] == 'e' && "items/instincts"@[3] == 'm' && "items/instincts"@[4] == 's' && "items/instincts"@[5] == '/' && "items/instincts"@[6] == 'i' && "items/instincts"@[7] == 'n' && "items/instincts"@[8] == 's' && "items/instincts"@[9] == 't' && "items/instincts"@[10] == 'i' && "items/instincts"@[11] == 'n' && "items/instincts"@[12] == 'c' && "items/instincts"@[13] == 't' && "items/instincts"@[14] == 's');
    let dir = "items"@;
    let name = match d {
        DatDescriptor::Armor => "armor"@,
        DatDescriptor::Armor2 => "armor2"@,
        DatDescriptor::Currency => "currency"@,
        DatDescriptor::GeneralItems => "general_items"@,
        DatDescriptor::GeneralItems2 => "general_items2"@,
        DatDescriptor::PuppetItems => "puppet_items"@,
        DatDescriptor::UsableItems => "usable_items"@,
        DatDescriptor::Weapons => "weapons"@,
        DatDescriptor::VouchersAndSlips => "vouchers_and_slips"@,
        DatDescriptor::Monipulator => "monipulator"@,
        DatDescriptor::Instincts => "instincts"@,
        _ => Seq::empty(),
    };
    let p = d.plain_name().unwrap();
    assert(p == dir + seq!['/'] + name) by {
        reveal_with_fuel(agree, 40);
        assert(agree(p, dir + seq!['/'] + name, p.len() as int));
        lemma_agree(p, dir + seq!['/'] + name);
    }
    assert(plain_prefix(dir, dir.len() as int)) by {
        reveal_with_fuel(plain_prefix, 25);
    }
    assert(plain_prefix(name, name.len() as int)) by {
        reveal_with_fuel(plain_prefix, 25);
    }
    lemma_plain_name(dir);
    lemma_plain_name(name);
    lemma_dir_path(dir, name, zones);
}
/// Each global dialog DAT is found again from its YAML file under `global_dialog`.
#[verifier::rlimit(100)]
proof fn lemma_global_dialog_yaml_paths(d: DatDescriptor, zones: Seq<(u16, String)>)
    requires
        yaml_table(d) == 2,
    ensures
        descriptor_from_path_spec(d.plain_name().unwrap() + yml(), zones) == Some(d),
{
    lemma_directory_names();
    reveal_strlit("monster_skill_names");
    assert("monster_skill_names"@.len() == 19 && "monster_skill_names"@[0] == 'm' && "monster_skill_names"@[1] == 'o' && "monster_skill_names"@[2] == 'n' && "monster_skill_names"@[3] == 's' && "monster_skill_names"@[4] == 't' && "monster_skill_names"@[5] == 'e' && "monster_skill_names"@[6] == 'r' && "monster_skill_names"@[7] == '_' && "monster_skill_names"@[8] == 's' && "monster_skill_names"@[9] == 'k' && "monster_skill_names"@[10] == 'i' && "monster_skill_names"@[11] == 'l' && "monster_skill_names"@[12] == 'l' && "monster_skill_names"@[13] == '_' && "monster_skill_names"@[14] == 'n' && "monster_skill_names"@[15] == 'a' && "monster_skill_names"@[16] == 'm' && "monster_skill_names"@[17] == 'e' && "monster_skill_names"@[18] == 's');
    reveal_strlit("status_names_dialog");
    assert("status_names_dialog"@.len() == 19 && "status_names_dialog"@[0] == 's' && "status_names_dialog"@[1] == 't' && "status_names_dialog"@[2] == 'a' && "status_names_dialog"@[3] == 't' && "status_names_dialog"@[4] == 'u' && "status_names_dialog"@[5] == 's' && "status_names_dialog"@[6] == '_' && "status_names_dialog"@[7] == 'n' && "status_names_dialog"@[8] == 'a' && "status_names_dialog"@[9] == 'm' && "status_names_dialog"@[10] == 'e' && "status_names_dialog"@[11] == 's' && "status_names_dialog"@[12] == '_' && "status_names_dialog"@[13] == 'd' && "status_names_dialog"@[14] == 'i' && "status_names_dialog"@[15] == 'a' && "status_names_dialog"@[16] == 'l' && "status_names_dialog"@[17] == 'o' && "status_names_dialog"@[18] == 'g');
    reveal_strlit("emote_messages");
    assert("emote_messages"@.len() == 14 && "emote_messages"@[0] == 'e' && "emote_messages"@[1] == 'm' && "emote_messages"@[2] == 'o' && "emote_messages"@[3] == 't' && "emote_messages"@[4] == 'e' && "emote_messages"@[5] == '_' && "emote_messages"@[6] == 'm' && "emote_messages"@[7] == 'e' && "emote_messages"@[8] == 's' && "emote_messages"@[9] == 's' && "emote_messages"@[10] == 'a' && "emote_messages"@[11] == 'g' && "emote_messages"@[12] == 'e' && "emote_messages"@[13] == 's');
    reveal_strlit("system_messages1");
    assert("system_messages1"@.len() == 16 && "system_messages1"@[0] == 's' && "system_messages1"@[1] == 'y' && "system_messages1"@[2] == 's' && "system_messages1"@[3] == 't' && "system_messages1"@[4] == 'e' && "system_messages1"@[5] == 'm' && "system_messages1"@[6] == '_' && "system_messages1"@[7] == 'm' && "system_messages1"@[8] == 'e' && "system_messages1"@[9] == 's' && "system_messages1"@[10] == 's' && "system_messages1"@[11] == 'a' && "system_messages1"@[12] == 'g' && "system_messages1"@[13] == 'e' && "system_messages1"@[14] == 's' && "system_messages1"@[15] == '1');
    reveal_strlit("system_messages2");
    assert("system_messages2"@.len() == 16 && "system_messages2"@[0] == 's' && "system_messages2"@[1] == 'y' && "system_messages2"@[2] == 's' && "system_messages2"@[3] == 't' && "system_messages2"@[4] == 'e' && "system_messages2"@[5] == 'm' && "system_messages2"@[6] == '_' && "system_messages2"@[7] == 'm' && "system_messages2"@[8] == 'e' && "system_messages2"@[9] == 's' && "system_messages2"@[10] == 's' && "system_messages2"@[11] == 'a' && "system_messages2"@[12] == 'g' && "system_messages2"@[13] == 'e' && "system_messages2"@[14] == 's' && "system_messages2"@[15] == '2');
    reveal_strlit("system_messages3");
    assert("system_messages3"@.len() == 16 && "system_messages3"@[0] == 's' && "system_messages3"@[1] == 'y' && "system_messages3"@[2] == 's' && "system_messages3"@[3] == 't' && "system_messages3"@[4] == 'e' && "system_messages3"@[5] == 'm' && "system_messages3"@[6] == '_' && "system_messages3"@[7] == 'm' && "system_messages3"@[8] == 'e' && "system_messages3"@[9] == 's' && "system_messages3"@[10] == 's' && "system_messages3"@[11] == 'a' && "system_messages3"@[12] == 'g' && "system_messages3"@[13] == 'e' && "system_messages3"@[14] == 's' && "system_messages3"@[15] == '3');
    reveal_strlit("system_messages4");
    assert("system_messages4"@.len() == 16 && "system_messages4"@[0] == 's' && "system_messages4"@[1] == 'y' && "system_messages4"@[2] == 's' && "system_messages4"@[3] == 't' && "system_messages4"@[4] == 'e' && "system_messages4"@[5] == 'm' && "system_messages4"@[6] == '_' && "system_messages4"@[7] == 'm' && "system_messages4"@[8] == 'e' && "system_messages4"@[9] == 's' && "system_messages4"@[10] == 's' && "system_messages4"@[11] == 'a' && "system_messages4"@[12] == 'g' && "system_messages4"@[13] == 'e' && "system_messages4"@[14] == 's' && "system_messages4"@[15] == '4');
    reveal_strlit("unity_dialogs");
    assert("unity_dialogs"@.len() == 13 && "unity_dialogs"@[0] == 'u' && "unity_dialogs"@[1] == 'n' && "unity_dialogs"@[2] == 'i' && "unity_dialogs"@[3] == 't' && "unity_dialogs"@[4] == 'y' && "unity_dialogs"@[5] == '_' && "unity_dialogs"@[6] == 'd' && "unity_dialogs"@[7] == 'i' && "unity_dialogs"@[8] == 'a' && "unity_dialogs"@[9] == 'l' && "unity_dialogs"@[10] == 'o' && "unity_dialogs"@[11] == 'g' && "unity_dialogs"@[12] == 's');
    reveal_strlit("global_dialog/monster_skill_names");
    assert("global_dialog/monster_skill_names"@.len() == 33 && "global_dialog/monster_skill_names"@[0] == 'g' && "global_dialog/monster_skill_names"@[1] == 'l' && "global_dialog/monster_skill_names"@[2] == 'o' && "global_dialog/monster_skill_names"@[3] == 'b' && "global_dialog/monster_skill_names"@[4] == 'a' && "global_dialog/monster_skill_names"@[5] == 'l' && "global_dialog/monster_skill_names"@[6] == '_' && "global_dialog/monster_skill_names"@[7] == 'd' && "global_dialog/monster_skill_names"@[8] == 'i' && "global_dialog/monster_skill_names"@[9] == 'a' && "global_dialog/monster_skill_names"@[10] == 'l' && "global_dialog/monster_skill_names"@[11] == 'o' && "global_dialog/monster_skill_names"@[12] == 'g' && "global_dialog/monster_skill_names"@[13] == '/' && "global_dialog/monster_skill_names"@[14] == 'm' && "global_dialog/monster_skill_names"@[15] == 'o' && "global_dialog/monster_skill_names"@[16] == 'n' && "global_dialog/monster_skill_names"@[17] == 's' && "global_dialog/monster_skill_names"@[18] == 't' && "global_dialog/monster_skill_names"@[19] == 'e' && "global_dialog/monster_skill_names"@[20] == 'r' && "global_dialog/monster_skill_names"@[21] == '_' && "global_dialog/monster_skill_names"@[22] == 's' && "global_dialog/monster_skill_names"@[23] == 'k' && "global_dialog/monster_skill_names"@[24] == 'i' && "global_dialog/monster_skill_names"@[25] == 'l' && "global_dialog/monster_skill_names"@[26] == 'l' && "global_dialog/monster_skill_names"@[27] == '_' && "global_dialog/monster_skill_names"@[28] == 'n' && "global_dialog/monster_skill_names"@[29] == 'a' && "global_dialog/monster_skill_names"@[30] == 'm' && "global_dialog/monster_skill_names"@[31] == 'e' && "global_dialog/monster_skill_names"@[32] == 's');
    reveal_strlit("global_dialog/status_names_dialog");
    assert("global_dialog/status_names_dialog"@.len() == 33 && "global_dialog/status_names_dialog"@[0] == 'g' && "global_dialog/status_names_dialog"@[1] == 'l' && "global_dialog/status_names_dialog"@[2] == 'o' && "global_dialog/status_names_dialog"@[3] == 'b' && "global_dialog/status_names_dialog"@[4] == 'a' && "global_dialog/status_names_dialog"@[5] == 'l' && "global_dialog/status_names_dialog"@[6] == '_' && "global_dialog/status_names_dialog"@[7] == 'd' && "global_dialog/status_names_dialog"@[8] == 'i' && "global_dialog/status_names_dialog"@[9] == 'a' && "global_dialog/status_names_dialog"@[10] == 'l' && "global_dialog/status_names_dialog"@[11] == 'o' && "global_dialog/status_names_dialog"@[12] == 'g' && "global_dialog/status_names_dialog"@[13] == '/' && "global_dialog/status_names_dialog"@[14] == 's' && "global_dialog/status_names_dialog"@[15] == 't' && "global_dialog/status_names_dialog"@[16] == 'a' && "global_dialog/status_names_dialog"@[17] == 't' && "global_dialog/status_names_dialog"@[18] == 'u' && "global_dialog/status_names_dialog"@[19] == 's' && "global_dialog/status_names_dialog"@[20] == '_' && "global_dialog/status_names_dialog"@[21] == 'n' && "global_dialog/status_names_dialog"@[22] == 'a' && "global_dialog/status_names_dialog"@[23] == 'm' && "global_dialog/status_names_dialog"@[24] == 'e' && "global_dialog/status_names_dialog"@[25] == 's' && "global_dialog/status_names_dialog"@[26] == '_' && "global_dialog/status_names_dialog"@[27] == 'd' && "global_dialog/status_names_dialog"@[28] == 'i' && "global_dialog/status_names_dialog"@[29] == 'a' && "global_dialog/status_names_dialog"@[30] == 'l' && "global_dialog/status_names_dialog"@[31] == 'o' && "global_dialog/status_names_dialog"@[32] == 'g');
    reveal_strlit("global_dialog/emote_messages");
    assert("global_dialog/emote_messages"@.len() == 28 && "global_dialog/emote_messages"@[0] == 'g' && "global_dialog/emote_messages"@[1] == 'l' && "global_dialog/emote_messages"@[2] == 'o' && "global_dialog/emote_messages"@[3] == 'b' && "global_dialog/emote_messages"@[4] == 'a' && "global_dialog/emote_messages"@[5] == 'l' && "global_dialog/emote_messages"@[6] == '_' && "global_dialog/emote_messages"@[7] == 'd' && "global_dialog/emote_messages"@[8] == 'i' && "global_dialog/emote_messages"@[9] == 'a' && "global_dialog/emote_messages"@[10] == 'l' && "global_dialog/emote_messages"@[11] == 'o' && "global_dialog/emote_messages"@[12] == 'g' && "global_dialog/emote_messages"@[13] == '/' && "global_dialog/emote_messages"@[14] == 'e' && "global_dialog/emote_messages"@[15] == 'm' && "global_dialog/emote_messages"@[16] == 'o' && "global_dialog/emote_messages"@[17] == 't' && "global_dialog/emote_messages"@[18] == 'e' && "global_dialog/emote_messages"@[19] == '_' && "global_dialog/emote_messages"@[20] == 'm' && "global_dialog/emote_messages"@[21] == 'e' && "global_dialog/emote_messages"@[22] == 's' && "global_dialog/emote_messages"@[23] == 's' && "global_dialog/emote_messages"@[24] == 'a' && "global_dialog/emote_messages"@[25] == 'g' && "global_dialog/emote_messages"@[26] == 'e' && "global_dialog/emote_messages"@[27] == 's');
    reveal_strlit("global_dialog/system_messages1");
    assert("global_dialog/system_messages1"@.len() == 30 && "global_dialog/system_messages1"@[0] == 'g' && "global_dialog/system_messages1"@[1] == 'l' && "global_dialog/system_messages1"@[2] == 'o' && "global_dialog/system_messages1"@[3] == 'b' && "global_dialog/system_messages1"@[4] == 'a' && "global_dialog/system_messages1"@[5] == 'l' && "global_dialog/system_messages1"@[6] == '_' && "global_dialog/system_messages1"@[7] == 'd' && "global_dialog/system_messages1"@[8] == 'i' && "global_dialog/system_messages1"@[9] == 'a' && "global_dialog/system_messages1"@[10] == 'l' && "global_dialog/system_messages1"@[11] == 'o' && "global_dialog/system_messages1"@[12] == 'g' && "global_dialog/system_messages1"@[13] == '/' && "global_dialog/system_messages1"@[14] == 's' && "global_dialog/system_messages1"@[15] == 'y' && "global_dialog/system_messages1"@[16] == 's' && "global_dialog/system_messages1"@[17] == 't' && "global_dialog/system_messages1"@[18] == 'e' && "global_dialog/system_messages1"@[19] == 'm' && "global_dialog/system_messages1"@[20] == '_' && "global_dialog/system_messages1"@[21] == 'm' && "global_dialog/system_messages1"@[22] == 'e' && "global_dialog/system_messages1"@[23] == 's' && "global_dialog/system_messages1"@[24] == 's' && "global_dialog/system_messages1"@[25] == 'a' && "global_dialog/system_messages1"@[26] == 'g' && "global_dialog/system_messages1"@[27] == 'e' && "global_dialog/system_messages1"@[28] == 's' && "global_dialog/system_messages1"@[29] == '1');
    reveal_strlit("global_dialog/system_messages2");
    assert("global_dialog/system_messages2"@.len() == 30 && "global_dialog/system_messages2"@[0] == 'g' && "global_dialog/system_messages2"@[1] == 'l' && "global_dialog/system_messages2"@[2] == 'o' && "global_dialog/system_messages2"@[3] == 'b' && "global_dialog/system_messages2"@[4] == 'a' && "global_dialog/system_messages2"@[5] == 'l' && "global_dialog/system_messages2"@[6] == '_' && "global_dialog/system_messages2"@[7] == 'd' && "global_dialog/system_messages2"@[8] == 'i' && "global_dialog/system_messages2"@[9] == 'a' && "global_dialog/system_messages2"@[10] == 'l' && "global_dialog/system_messages2"@[11] == 'o' && "global_dialog/system_messages2"@[12] == 'g' && "global_dialog/system_messages2"@[13] == '/' && "global_dialog/system_messages2"@[14] == 's' && "global_dialog/system_messages2"@[15] == 'y' && "global_dialog/system_messages2"@[16] == 's' && "global_dialog/system_messages2"@[17] == 't' && "global_dialog/system_messages2"@[18] == 'e' && "global_dialog/system_messages2"@[19] == 'm' && "global_dialog/system_messages2"@[20] == '_' && "global_dialog/system_messages2"@[21] == 'm' && "global_dialog/system_messages2"@[22] == 'e' && "global_dialog/system_messages2"@[23] == 's' && "global_dialog/system_messages2"@[24] == 's' && "global_dialog/system_messages2"@[25] == 'a' && "global_dialog/system_messages2"@[26] == 'g' && "global_dialog/system_messages2"@[27] == 'e' && "global_dialog/system_messages2"@[28] == 's' && "global_dialog/system_messages2"@[29] == '2');
    reveal_strlit("global_dialog/system_messages3");
    assert("global_dialog/system_messages3"@.len() == 30 && "global_dialog/system_messages3"@[0] == 'g' && "global_dialog/system_messages3"@[1] == 'l' && "global_dialog/system_messages3"@[2] == 'o' && "global_dialog/system_messages3"@[3] == 'b' && "global_dialog/system_messages3"@[4] == 'a' && "global_dialog/system_messages3"@[5] == 'l' && "global_dialog/system_messages3"@[6] == '_' && "global_dialog/system_messages3"@[7] == 'd' && "global_dialog/system_messages3"@[8] == 'i' && "global_dialog/system_messages3"@[9] == 'a' && "global_dialog/system_messages3"@[10] == 'l' && "global_dialog/system_messages3"@[11] == 'o' && "global_dialog/system_messages3"@[12] == 'g' && "global_dialog/system_messages3"@[13] == '/' && "global_dialog/system_messages3"@[14] == 's' && "global_dialog/system_messages3"@[15] == 'y' && "global_dialog/system_messages3"@[16] == 's' && "global_dialog/system_messages3"@[17] == 't' && "global_dialog/system_messages3"@[18] == 'e' && "global_dialog/system_messages3"@[19] == 'm' && "global_dialog/system_messages3"@[20] == '_' && "global_dialog/system_messages3"@[21] == 'm' && "global_dialog/system_messages3"@[22] == 'e' && "global_dialog/system_messages3"@[23] == 's' && "global_dialog/system_messages3"@[24] == 's' && "global_dialog/system_messages3"@[25] == 'a' && "global_dialog/system_messages3"@[26] == 'g' && "global_dialog/system_messages3"@[27] == 'e' && "global_dialog/system_messages3"@[28] == 's' && "global_dialog/system_messages3"@[29] == '3');
    reveal_strlit("global_dialog/system_messages4");
    assert("global_dialog/system_messages4"@.len() == 30 && "global_dialog/system_messages4"@[0] == 'g' && "global_dialog/system_messages4"@[1] == 'l' && "global_dialog/system_messages4"@[2] == 'o' && "global_dialog/system_messages4"@[3] == 'b' && "global_dialog/system_messages4"@[4] == 'a' && "global_dialog/system_messages4"@[5] == 'l' && "global_dialog/system_messages4"@[6] == '_' && "global_dialog/system_messages4"@[7] == 'd' && "global_dialog/system_messages4"@[8] == 'i' && "global_dialog/system_messages4"@[9] == 'a' && "global_dialog/system_messages4"@[10] == 'l' && "global_dialog/system_messages4"@[11] == 'o' && "global_dialog/system_messages4"@[12] == 'g' && "global_dialog/system_messages4"@[13] == '/' && "global_dialog/system_messages4"@[14] == 's' && "global_dialog/system_messages4"@[15] == 'y' && "global_dialog/system_messages4"@[16] == 's' && "global_dialog/system_messages4"@[17] == 't' && "global_dialog/system_messages4"@[18] == 'e' && "global_dialog/system_messages4"@[19] == 'm' && "global_dialog/system_messages4"@[20] == '_' && "global_dialog/system_messages4"@[21] == 'm' && "global_dialog/system_messages4"@[22] == 'e' && "global_dialog/system_messages4"@[23] == 's' && "global_dialog/system_messages4"@[24] == 's' && "global_dialog/system_messages4"@[25] == 'a' && "global_dialog/system_messages4"@[26] == 'g' && "global_dialog/system_messages4"@[27] == 'e' && "global_dialog/system_messages4"@[28] == 's' && "global_dialog/system_messages4"@[29] == '4');
    reveal_strlit("global_dialog/unity_dialogs");
    assert("global_dialog/unity_dialogs"@.len() == 27 && "global_dialog/unity_dialogs"@[0] == 'g' && "global_dialog/unity_dialogs"@[1] == 'l' && "global_dialog/unity_dialogs"@[2] == 'o' && "global_dialog/unity_dialogs"@[3] == 'b' && "global_dialog/unity_dialogs"@[4] == 'a' && "global_dialog/unity_dialogs"@[5] == 'l' && "global_dialog/unity_dialogs"@[6] == '_' && "global_dialog/unity_dialogs"@[7] == 'd' && "global_dialog/unity_dialogs"@[8] == 'i' && "global_dialog/unity_dialogs"@[9] == 'a' && "global_dialog/unity_dialogs"@[10] == 'l' && "global_dialog/unity_dialogs"@[11] == 'o' && "global_dialog/unity_dialogs"@[12] == 'g' && "global_dialog/unity_dialogs"@[13] == '/' && "global_dialog/unity_dialogs"@[14] == 'u' && "global_dialog/unity_dialogs"@[15] == 'n' && "global_dialog/unity_dialogs"@[16] == 'i' && "global_dialog/unity_dialogs"@[17] == 't' && "global_dialog/unity_dialogs"@[18] == 'y' && "global_dialog/unity_dialogs"@[19] == '_' && "global_dialog/unity_dialogs"@[20] == 'd' && "global_dialog/unity_dialogs"@[21] == 'i' && "global_dialog/unity_dialogs"@[22] == 'a' && "global_dialog/unity_dialogs"@[23] == 'l' && "global_dialog/unity_dialogs"@[24] == 'o' && "global_dialog/unity_dialogs"@[25] == 'g' && "global_dialog/unity_dialogs"@[26] == 's');
    let dir = "global_dialog"@;
    let name = match d {
        DatDescriptor::MonsterSkillNames => "monster_skill_names"@,
        DatDescriptor::StatusNamesDialog => "status_names_dialog"@,
        DatDescriptor::EmoteMessages => "emote_messages"@,
        DatDescriptor::SystemMessages1 => "system_messages1"@,
        DatDescriptor::SystemMessages2 => "system_messages2"@,
        DatDescriptor::SystemMessages3 => "system_messages3"@,
        DatDescriptor::SystemMessages4 => "system_messages4"@,
        DatDescriptor::UnityDialogs => "unity_dialogs"@,
        _ => Seq::empty(),
    };
    let p = d.plain_name().unwrap();
    assert(p == dir + seq!['/'] + name) by {
        reveal_with_fuel(agree, 40);
        assert(agree(p, dir + seq!['/'] + name, p.len() as int));
        lemma_agree(p, dir + seq!['/'] + name);
    }
    assert(plain_prefix(dir, dir.len() as int)) by {
        reveal_with_fuel(plain_prefix, 25);
    }
    assert(plain_prefix(name, name.len() as int)) by {
        reveal_with_fuel(plain_prefix, 25);
    }
    lemma_plain_name(dir);
    lemma_plain_name(name);
    lemma_dir_path(dir, name, zones);
}
/// Each per-zone DAT is found again from its YAML file, when the zone file
/// names are invertible.
#[verifier::rlimit(100)]
proof fn lemma_zone_yaml_paths(d: DatDescriptor, zones: Seq<(u16, String)>)
    requires
        d.zone_dir() is Some,
        zone_name_invertible(zones, d.zone_dir().unwrap().1),
        d.relative_path_spec(zones) is Some,
    ensures
        descriptor_from_path_spec(d.relative_path_spec(zones).unwrap() + yml(), zones) == Some(d),
{
    lemma_directory_names();
    let (dir, z) = d.zone_dir().unwrap();
    assert(zone_name_of(zones, z) is Some);
    let name = zone_name_of(zones, z).unwrap();
    assert(plain_prefix(dir, dir.len() as int)) by {
        reveal_with_fuel(plain_prefix, 25);
    }
    lemma_plain_name(dir);
    lemma_dir_path(dir, name, zones);
}

/// A DAT's YAML file is recognised as that DAT again: the path that
/// `get_relative_path` gives it, with `.yml` appended, is the path
/// `from_path` maps back to the DAT; for a per-zone DAT, provided the file
/// name of its zone has no `/`, no `.yml` to trim, and names that zone alone.
pub proof fn lemma_yaml_path_recognized(d: DatDescriptor, zones: Seq<(u16, String)>)
    requires
        d.zone_dir() is Some ==> zone_name_invertible(zones, d.zone_dir().unwrap().1),
        d.relative_path_spec(zones) is Some,
    ensures
        descriptor_from_path_spec(d.relative_path_spec(zones).unwrap() + yml(), zones) == Some(d),
{
    if d.zone_dir() is Some {
        lemma_zone_yaml_paths(d, zones);
    } else if yaml_table(d) == 1 {
        lemma_item_yaml_paths(d, zones);
    } else if yaml_table(d) == 2 {
        lemma_global_dialog_yaml_paths(d, zones);
    } else {
        lemma_root_yaml_paths(d, zones);
    }
}

} // verus!
