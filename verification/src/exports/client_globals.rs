//! Where the catalogue of client-wide message tables comes from: the area
//! names, the titles and the status names, found through the client's table
//! IDs.
use vstd::prelude::*;
use vstd::hash_map::HashMapWithView;
use vstd::string::StringExecFns;
use crate::dat_descriptor::DatDescriptor;
use crate::dat_path::DatPath;
use crate::id_mapping::DatIdMapping;
use crate::text::{decimal_chars, push_decimal};
use crate::xbox::id_index;

verus! {

/// One of the client-wide message tables of the catalogue.
#[derive(Clone, Copy, Debug, PartialEq, Eq, Structural)]
pub enum ClientGlobal {
    AreaNames,
    Titles,
    StatusNames,
}

/// The tables of the catalogue, in the order it lists them.
pub open spec fn client_globals() -> Seq<ClientGlobal> {
    seq![ClientGlobal::AreaNames, ClientGlobal::Titles, ClientGlobal::StatusNames]
}

impl ClientGlobal {
    pub open spec fn name_spec(self) -> Seq<char> {
        match self {
            ClientGlobal::AreaNames => "area_names"@,
            ClientGlobal::Titles => "titles"@,
            ClientGlobal::StatusNames => "status_names"@,
        }
    }

    /// The name the catalogue gives the table.
    pub fn name(self) -> (s: &'static str)
        ensures
            s@ == self.name_spec(),
    {
        match self {
            ClientGlobal::AreaNames => {
                proof { reveal_strlit("area_names"); }
                "area_names"
            },
            ClientGlobal::Titles => {
                proof { reveal_strlit("titles"); }
                "titles"
            },
            ClientGlobal::StatusNames => {
                proof { reveal_strlit("status_names"); }
                "status_names"
            },
        }
    }

    pub open spec fn descriptor_spec(self) -> DatDescriptor {
        match self {
            ClientGlobal::AreaNames => DatDescriptor::AreaNames,
            ClientGlobal::Titles => DatDescriptor::Titles,
            ClientGlobal::StatusNames => DatDescriptor::StatusNames,
        }
    }

    /// The descriptor of the table's DAT.
    pub fn descriptor(self) -> (d: DatDescriptor)
        ensures
            d == self.descriptor_spec(),
    {
        match self {
            ClientGlobal::AreaNames => DatDescriptor::AreaNames,
            ClientGlobal::Titles => DatDescriptor::Titles,
            ClientGlobal::StatusNames => DatDescriptor::StatusNames,
        }
    }
}

/// The DAT of one table: its table ID and where the client keeps it.
#[derive(Clone, Copy, Debug, PartialEq, Eq, Structural)]
pub struct ClientGlobalSource {
    pub resource: ClientGlobal,
    pub dat_id: u32,
    pub dat_path: DatPath,
}

/// Why the catalogue of client-wide tables cannot be assembled.
#[derive(Clone, Copy, Debug, PartialEq, Eq, Structural)]
pub enum ClientGlobalsError {
    /// The client's tables do not hold the table's DAT ID.
    MissingDatId { resource: ClientGlobal, dat_id: u32 },
}

impl ClientGlobalsError {
    /// What the error says.
    pub fn message(&self) -> (s: String)
        ensures
            s@ == (match *self {
                ClientGlobalsError::MissingDatId { resource, dat_id } => "Client mapping does not contain "@
                    + resource.name_spec() + " DAT ID "@ + decimal_chars(dat_id as nat),
            }),
    {
        match *self {
            ClientGlobalsError::MissingDatId { resource, dat_id } => {
                let mut s = String::from_str("Client mapping does not contain ");
                s.append(resource.name());
                s.append(" DAT ID ");
                push_decimal(&mut s, dat_id as u64);
                s
            },
        }
    }
}

/// The sources of the first `n` tables of the catalogue, or the error of the
/// first table that has none.
pub open spec fn client_globals_spec(m: DatIdMapping, ids: Map<u32, DatPath>, n: int) -> Result<
    Seq<ClientGlobalSource>,
    ClientGlobalsError,
>
    decreases n,
{
    if n <= 0 {
        Ok(Seq::empty())
    } else {
        match client_globals_spec(m, ids, n - 1) {
            Err(e) => Err(e),
            Ok(v) => {
                let g = client_globals()[n - 1];
                let d = g.descriptor_spec().dat_spec(m).unwrap();
                if ids.contains_key(d.id) {
                    Ok(v.push(ClientGlobalSource { resource: g, dat_id: d.id, dat_path: ids[d.id] }))
                } else {
                    Err(ClientGlobalsError::MissingDatId { resource: g, dat_id: d.id })
                }
            },
        }
    }
}

/// The DAT of each client-wide table, in catalogue order, with where the
/// client keeps it; the first table whose DAT is not in the client's tables
/// is an error.
pub fn client_global_sources(mapping: &DatIdMapping, id_map: &[(u32, DatPath)]) -> (r: Result<
    Vec<ClientGlobalSource>,
    ClientGlobalsError,
>)
    ensures
        match (r, client_globals_spec(*mapping, id_index(id_map@), 3)) {
            (Ok(v), Ok(w)) => v@ == w,
            (Err(e), Err(f)) => e == f,
            _ => false,
        },
{
    broadcast use vstd::std_specs::hash::axiom_u32_obeys_hash_table_key_model;

    let mut ids: HashMapWithView<u32, DatPath> = HashMapWithView::new();
    let mut i: usize = 0;
    while i < id_map.len()
        invariant
            i <= id_map@.len(),
            ids@ == id_index(id_map@.subrange(0, i as int)),
        decreases id_map@.len() - i,
    {
        assert(id_map@.subrange(0, i + 1).drop_last() =~= id_map@.subrange(0, i as int));
        ids.insert(id_map[i].0, id_map[i].1);
        i = i + 1;
    }
    assert(id_map@.subrange(0, id_map@.len() as int) =~= id_map@);
    let ghost index = id_index(id_map@);
    let resources = [ClientGlobal::AreaNames, ClientGlobal::Titles, ClientGlobal::StatusNames];
    assert(resources@ =~= client_globals());
    let mut out: Vec<ClientGlobalSource> = Vec::new();
    let mut k: usize = 0;
    while k < 3
        invariant
            k <= 3,
            resources@ == client_globals(),
            ids@ == index,
            index == id_index(id_map@),
            client_globals_spec(*mapping, index, k as int) == Ok::<
                Seq<ClientGlobalSource>,
                ClientGlobalsError,
            >(out@),
        decreases 3 - k,
    {
        let g = resources[k];
        let dat = g.descriptor().dat(mapping).unwrap();
        match ids.get(&dat.id) {
            Some(p) => {
                out.push(ClientGlobalSource { resource: g, dat_id: dat.id, dat_path: *p });
            },
            None => {
                proof {
                    lemma_client_globals_err(*mapping, index, k as int + 1, 3);
                }
                return Err(ClientGlobalsError::MissingDatId { resource: g, dat_id: dat.id });
            },
        }
        k = k + 1;
    }
    Ok(out)
}

/// Once a table fails, every longer prefix fails with the same error.
proof fn lemma_client_globals_err(m: DatIdMapping, ids: Map<u32, DatPath>, n: int, k: int)
    requires
        n <= k,
        client_globals_spec(m, ids, n) is Err,
    ensures
        client_globals_spec(m, ids, k) == client_globals_spec(m, ids, n),
    decreases k - n,
{
    if n < k {
        lemma_client_globals_err(m, ids, n, k - 1);
    }
}

} // verus!
