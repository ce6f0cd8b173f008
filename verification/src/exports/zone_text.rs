//! Where the per-zone text catalogue comes from: the dialog DAT of every
//! zone slot, found through the client's table IDs.
use vstd::prelude::*;
use vstd::hash_map::HashMapWithView;
use vstd::string::StringExecFns;
use crate::dat_descriptor::DatDescriptor;
use crate::dat_path::DatPath;
use crate::id_mapping::DatIdMapping;
use crate::text::{decimal_chars, push_decimal};
use crate::xbox::id_index;

verus! {

/// Number of zone slots the catalogue keeps.
pub const ZONE_COUNT: u16 = 256;

/// The dialog DAT of one zone slot: its table ID and where the client keeps it.
#[derive(Clone, Copy, Debug, PartialEq, Eq, Structural)]
pub struct ZoneTextSource {
    pub zone_id: u16,
    pub dat_id: u32,
    pub dat_path: DatPath,
}

/// Why the zone text catalogue cannot be assembled.
#[derive(Clone, Copy, Debug, PartialEq, Eq, Structural)]
pub enum ZoneTextError {
    /// The zone has no dialog DAT in the table of dialogs.
    NoDialogDat { zone_id: u16 },
    /// The client's tables do not hold the zone's dialog DAT ID.
    MissingDialogId { dat_id: u32, zone_id: u16 },
}

impl ZoneTextError {
    /// What the error says.
    pub fn message(&self) -> (s: String)
        ensures
            s@ == (match *self {
                ZoneTextError::NoDialogDat { zone_id } => "No DAT found for zone ID "@ + decimal_chars(
                    zone_id as nat,
                ),
                ZoneTextError::MissingDialogId { dat_id, zone_id } => "Client mapping does not contain dialog DAT ID "@
                    + decimal_chars(dat_id as nat) + " for zone "@ + decimal_chars(zone_id as nat),
            }),
    {
        match *self {
            ZoneTextError::NoDialogDat { zone_id } => {
                let mut s = String::from_str("No DAT found for zone ID ");
                push_decimal(&mut s, zone_id as u64);
                s
            },
            ZoneTextError::MissingDialogId { dat_id, zone_id } => {
                let mut s = String::from_str("Client mapping does not contain dialog DAT ID ");
                push_decimal(&mut s, dat_id as u64);
                s.append(" for zone ");
                push_decimal(&mut s, zone_id as u64);
                s
            },
        }
    }
}

/// The sources of the first `n` zone slots, or the error of the first slot
/// that has none.
pub open spec fn zone_text_spec(m: DatIdMapping, ids: Map<u32, DatPath>, n: int) -> Result<
    Seq<ZoneTextSource>,
    ZoneTextError,
>
    decreases n,
{
    if n <= 0 {
        Ok(Seq::empty())
    } else {
        match zone_text_spec(m, ids, n - 1) {
            Err(e) => Err(e),
            Ok(v) => {
                let z = (n - 1) as u16;
                match DatDescriptor::Dialog(z).dat_spec(m) {
                    None => Err(ZoneTextError::NoDialogDat { zone_id: z }),
                    Some(d) => if ids.contains_key(d.id) {
                        Ok(v.push(ZoneTextSource { zone_id: z, dat_id: d.id, dat_path: ids[d.id] }))
                    } else {
                        Err(ZoneTextError::MissingDialogId { dat_id: d.id, zone_id: z })
                    },
                }
            },
        }
    }
}

/// The dialog DAT of every zone slot, in zone order, with where the client
/// keeps it; the first slot whose DAT is unknown or not in the client's
/// tables is an error.
pub fn zone_text_sources(mapping: &DatIdMapping, id_map: &[(u32, DatPath)]) -> (r: Result<
    Vec<ZoneTextSource>,
    ZoneTextError,
>)
    ensures
        match (r, zone_text_spec(*mapping, id_index(id_map@), ZONE_COUNT as int)) {
            (Ok(v), Ok(w)) => v@ == w,
            (Err(e), Err(f)) => e == f,
            _ => false,
        },
{
    broadcast use vstd::std_specs::hash::axiom_u32_obeys_hash_table_key_model;

    let mut ids: HashMapWithView<u32, DatPath> = HashMapWithView::new();
    let mut i: usize = 0;
    while i < id_map.len()
        invariant
            i <= id_map@.len(),
            ids@ == id_index(id_map@.subrange(0, i as int)),
        decreases id_map@.len() - i,
    {
        assert(id_map@.subrange(0, i + 1).drop_last() =~= id_map@.subrange(0, i as int));
        ids.insert(id_map[i].0, id_map[i].1);
        i = i + 1;
    }
    assert(id_map@.subrange(0, id_map@.len() as int) =~= id_map@);
    let ghost index = id_index(id_map@);
    let mut out: Vec<ZoneTextSource> = Vec::new();
    let mut z: u16 = 0;
    while z < ZONE_COUNT
        invariant
            z <= ZONE_COUNT,
            ids@ == index,
            index == id_index(id_map@),
            zone_text_spec(*mapping, index, z as int) == Ok::<Seq<ZoneTextSource>, ZoneTextError>(out@),
        decreases ZONE_COUNT - z,
    {
        let dat = match DatDescriptor::Dialog(z).dat(mapping) {
            Some(d) => d,
            None => {
                proof {
                    lemma_zone_text_err(*mapping, index, z as int + 1, ZONE_COUNT as int);
                }
                return Err(ZoneTextError::NoDialogDat { zone_id: z });
            },
        };
        match ids.get(&dat.id) {
            Some(p) => {
                out.push(ZoneTextSource { zone_id: z, dat_id: dat.id, dat_path: *p });
            },
            None => {
                proof {
                    lemma_zone_text_err(*mapping, index, z as int + 1, ZONE_COUNT as int);
                }
                return Err(ZoneTextError::MissingDialogId { dat_id: dat.id, zone_id: z });
            },
        }
        z = z + 1;
    }
    Ok(out)
}

/// Once a slot fails, every longer prefix fails with the same error.
proof fn lemma_zone_text_err(m: DatIdMapping, ids: Map<u32, DatPath>, n: int, k: int)
    requires
        n <= k,
        zone_text_spec(m, ids, n) is Err,
    ensures
        zone_text_spec(m, ids, k) == zone_text_spec(m, ids, n),
    decreases k - n,
{
    if n < k {
        lemma_zone_text_err(m, ids, n, k - 1);
    }
}

} // verus!
