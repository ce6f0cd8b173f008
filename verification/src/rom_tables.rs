//! The client's file tables: which DAT file each DAT ID names.
use vstd::prelude::*;
use crate::bytes::{read_u16, u16_at};
use crate::dat_path::DatPath;

verus! {

/// The tables of one ROM directory: the ROM's number, its `VTABLE` (one byte
/// per DAT ID, non-zero where the ROM holds the ID) and its `FTABLE` (one
/// little-endian `u16` per DAT ID: the folder times 128 plus the file).
#[derive(Clone, Debug)]
pub struct RomTable {
    pub rom_id: u8,
    pub vtable: Vec<u8>,
    pub ftable: Vec<u8>,
}

/// The DAT file that table `t` gives ID `id`, if it holds the ID.
pub open spec fn table_entry(t: RomTable, id: int) -> Option<DatPath> {
    if 0 <= id < t.vtable@.len() && 2 * id + 2 <= t.ftable@.len() && t.vtable@[id] != 0 {
        let combined = u16_at(t.ftable@, 2 * id);
        Some(DatPath { rom_id: t.rom_id, folder_id: combined / 128, file_id: combined % 128 })
    } else {
        None
    }
}

/// The DAT file of ID `id`: that of the last table that holds the ID.
pub open spec fn id_lookup(ts: Seq<RomTable>, id: int) -> Option<DatPath>
    decreases ts.len(),
{
    if ts.len() == 0 {
        None
    } else {
        match table_entry(ts.last(), id) {
            Some(p) => Some(p),
            None => id_lookup(ts.drop_last(), id),
        }
    }
}

/// The longest `VTABLE` of the tables.
pub open spec fn id_bound(ts: Seq<RomTable>) -> int
    decreases ts.len(),
{
    if ts.len() == 0 {
        0
    } else {
        let rest = id_bound(ts.drop_last());
        if ts.last().vtable@.len() > rest {
            ts.last().vtable@.len() as int
        } else {
            rest
        }
    }
}

/// The IDs below `n` that some table holds, in increasing order, each with
/// its DAT file.
pub open spec fn id_map_upto(ts: Seq<RomTable>, n: int) -> Seq<(u32, DatPath)>
    decreases n,
{
    if n <= 0 {
        Seq::empty()
    } else {
        match id_lookup(ts, n - 1) {
            Some(p) => id_map_upto(ts, n - 1).push(((n - 1) as u32, p)),
            None => id_map_upto(ts, n - 1),
        }
    }
}

fn entry_of(t: &RomTable, id: usize) -> (r: Option<DatPath>)
    ensures
        r == table_entry(*t, id as int),
{
    if id >= t.vtable.len() || t.vtable[id] == 0 {
        return None;
    }
    let flen = t.ftable.len();
    if id > (usize::MAX - 2) / 2 || 2 * id + 2 > flen {
        return None;
    }
    match read_u16(t.ftable.as_slice(), 2 * id) {
        Some(combined) => Some(DatPath { rom_id: t.rom_id, folder_id: combined / 128, file_id: combined % 128 }),
        None => None,
    }
}

fn lookup(tables: &[RomTable], id: usize) -> (r: Option<DatPath>)
    ensures
        r == id_lookup(tables@, id as int),
{
    let mut k = tables.len();
    assert(tables@.subrange(0, k as int) =~= tables@);
    while k > 0
        invariant
            k <= tables@.len(),
            id_lookup(tables@, id as int) == id_lookup(tables@.subrange(0, k as int), id as int),
        decreases k,
    {
        let prefix = Ghost(tables@.subrange(0, k as int));
        assert(prefix@.drop_last() =~= tables@.subrange(0, k - 1));
        assert(prefix@.last() == tables@[k - 1]);
        match entry_of(&tables[k - 1], id) {
            Some(p) => return Some(p),
            None => {},
        }
        k = k - 1;
    }
    None
}

fn bound_of(tables: &[RomTable]) -> (n: usize)
    ensures
        n == id_bound(tables@),
{
    let mut n: usize = 0;
    let mut k: usize = 0;
    while k < tables.len()
        invariant
            k <= tables@.len(),
            n == id_bound(tables@.subrange(0, k as int)),
        decreases tables@.len() - k,
    {
        assert(tables@.subrange(0, k + 1).drop_last() =~= tables@.subrange(0, k as int));
        if tables[k].vtable.len() > n {
            n = tables[k].vtable.len();
        }
        k = k + 1;
    }
    assert(tables@.subrange(0, tables@.len() as int) =~= tables@);
    n
}

/// The DAT file of every ID the tables hold, in increasing ID order; where
/// several tables hold an ID, the last of them decides.
pub fn rom_id_map(tables: &[RomTable]) -> (map: Vec<(u32, DatPath)>)
    requires
        id_bound(tables@) <= u32::MAX + 1,
    ensures
        map@ == id_map_upto(tables@, id_bound(tables@)),
{
    let n = bound_of(tables);
    let mut map: Vec<(u32, DatPath)> = Vec::new();
    let mut id: usize = 0;
    while id < n
        invariant
            id <= n,
            n == id_bound(tables@),
            n <= u32::MAX + 1,
            map@ == id_map_upto(tables@, id as int),
        decreases n - id,
    {
        match lookup(tables, id) {
            Some(p) => map.push((id as u32, p)),
            None => {},
        }
        id = id + 1;
    }
    map
}

} // verus!
