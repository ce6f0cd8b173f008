use vstd::prelude::*;
use crate::bytes::{
    copy_range, get_u32, lemma_u32_bytes_of_read, lemma_u32_round_trip, push_bytes, push_u32, push_zeros,
    read_u32, u32_at, u32_bytes, zeros,
};
use crate::error::DatError;

verus! {

/// Size of the header and of each record.
pub const RECORD_SIZE: usize = 28;

/// Size of the name field of a record.
pub const NAME_SIZE: usize = 24;

/// The names of the entities of a zone.
pub struct EntityNames {
    pub names: Vec<EntityName>,
}

/// An entity's ID and name, the name as encoded text.
pub struct EntityName {
    id: u32,
    name: Vec<u8>,
}

/// An entity as (ID, encoded name).
pub closed spec fn entity_view(e: EntityName) -> (u32, Seq<u8>) {
    (e.id, e.name@)
}

/// An entity's view is its ID and its encoded name.
pub proof fn lemma_entity_view(e: EntityName)
    ensures
        entity_view(e) == (e.spec_id(), e.spec_name()),
{
}

impl EntityName {
    pub closed spec fn spec_id(&self) -> u32 {
        self.id
    }

    pub closed spec fn spec_name(&self) -> Seq<u8> {
        self.name@
    }

    pub fn new(id: u32, name: Vec<u8>) -> (e: EntityName)
        ensures
            entity_view(e) == (id, name@),
    {
        EntityName { id, name }
    }

    pub fn id(&self) -> (id: u32)
        ensures
            id == self.spec_id(),
            id == entity_view(*self).0,
    {
        self.id
    }

    /// The encoded name.
    pub fn name(&self) -> (name: &[u8])
        ensures
            name@ == self.spec_name(),
            name@ == entity_view(*self).1,
    {
        self.name.as_slice()
    }
}

impl EntityNames {
    pub open spec fn view_seq(&self) -> Seq<(u32, Seq<u8>)> {
        self.names@.map_values(|e: EntityName| entity_view(e))
    }
}

/// The header of an entity-name DAT starts with the text `none`.
pub open spec fn none_marker() -> Seq<u8> {
    seq![110u8, 111u8, 110u8, 101u8]
}

/// Index of the first zero byte of `b`, or its length.
pub open spec fn text_len(b: Seq<u8>) -> int
    decreases b.len(),
{
    if b.len() == 0 || b[0] == 0 {
        0
    } else {
        1 + text_len(b.drop_first())
    }
}

pub proof fn lemma_text_len(b: Seq<u8>)
    ensures
        0 <= text_len(b) <= b.len(),
        forall|i: int| 0 <= i < text_len(b) ==> b[i] != 0,
        text_len(b) < b.len() ==> b[text_len(b)] == 0,
    decreases b.len(),
{
    if b.len() > 0 && b[0] != 0 {
        lemma_text_len(b.drop_first());
        assert forall|i: int| 0 <= i < text_len(b) implies b[i] != 0 by {
            if i > 0 {
                assert(b[i] == b.drop_first()[i - 1]);
            }
        }
    }
}

pub proof fn lemma_text_len_of(b: Seq<u8>, k: int)
    requires
        0 <= k <= b.len(),
        forall|i: int| 0 <= i < k ==> b[i] != 0,
        k < b.len() ==> b[k] == 0,
    ensures
        text_len(b) == k,
    decreases b.len(),
{
    if k > 0 {
        lemma_text_len_of(b.drop_first(), k - 1);
    }
}

/// Whether `b` is an entity-name DAT: the header marker, a 28-byte header,
/// then whole 28-byte records.
pub open spec fn valid_entity_bytes(b: Seq<u8>) -> bool {
    &&& b.len() >= 28
    &&& b.subrange(0, 4) == none_marker()
    &&& (b.len() - 28) % 28 == 0
}

/// Why `b` is no entity-name DAT: it does not open with the marker, or what
/// follows the marker is no header with whole records.
pub open spec fn entity_error(b: Seq<u8>) -> DatError {
    if !(b.len() >= 4 && b.subrange(0, 4) == none_marker()) {
        DatError::Malformed
    } else {
        DatError::EntityRecords
    }
}

/// The entity of record `k`: the text before the first zero byte of its
/// 24-byte name field, and the ID after it.
pub open spec fn record_at(b: Seq<u8>, k: int) -> (u32, Seq<u8>) {
    let start = 28 + 28 * k;
    let field = b.subrange(start, start + 24);
    (u32_at(b, start + 24), field.subrange(0, text_len(field)))
}

/// The entities of an entity-name DAT.
pub open spec fn entity_records(b: Seq<u8>) -> Seq<(u32, Seq<u8>)> {
    Seq::new(((b.len() - 28) / 28) as nat, |k: int| record_at(b, k))
}

/// Reads the first four bytes and checks them against the header marker.
fn has_none_marker(bytes: &[u8]) -> (r: bool)
    ensures
        r == (bytes@.len() >= 4 && bytes@.subrange(0, 4) == none_marker()),
{
    if bytes.len() < 4 {
        return false;
    }
    let r = bytes[0] == 110 && bytes[1] == 111 && bytes[2] == 110 && bytes[3] == 101;
    proof {
        if bytes@.subrange(0, 4) == none_marker() {
            assert(bytes@[0] == bytes@.subrange(0, 4)[0]);
            assert(bytes@[1] == bytes@.subrange(0, 4)[1]);
            assert(bytes@[2] == bytes@.subrange(0, 4)[2]);
            assert(bytes@[3] == bytes@.subrange(0, 4)[3]);
        }
        if r {
            assert(bytes@.subrange(0, 4) =~= none_marker());
        }
    }
    r
}

/// The first non-zero record ID from record `k` on, reading each ID only
/// where its four bytes lie in `b`; `None` once an ID lies past the end.
pub open spec fn first_id_from(b: Seq<u8>, k: int) -> Option<u32>
    decreases b.len() - 28 * k,
{
    if k < 0 || 56 + 28 * k > b.len() {
        None
    } else if u32_at(b, 52 + 28 * k) != 0 {
        Some(u32_at(b, 52 + 28 * k))
    } else {
        first_id_from(b, k + 1)
    }
}

/// The zone an entity-name DAT belongs to: bits 12 to 23 of its first
/// non-zero entity ID; `None` without the marker or a non-zero ID.
pub open spec fn entity_zone_spec(b: Seq<u8>) -> Option<u16> {
    if !(b.len() >= 4 && b.subrange(0, 4) == none_marker()) {
        None
    } else {
        match first_id_from(b, 0) {
            Some(id) => Some(((id >> 12u32) & 0xFFFu32) as u16),
            None => None,
        }
    }
}

/// The zone of the entity-name DAT in `bytes`: bits 12 to 23 of its first
/// non-zero entity ID.
pub fn get_entity_names_zone(bytes: &[u8]) -> (r: Option<u16>)
    ensures
        r == entity_zone_spec(bytes@),
{
    if !has_none_marker(bytes) {
        return None;
    }
    let ghost b = bytes@;
    let len = bytes.len();
    let mut off: usize = 52;
    let ghost mut k: int = 0;
    while off <= len && len - off >= 4
        invariant
            b == bytes@,
            len == b.len(),
            k >= 0,
            off == 52 + 28 * k,
            off <= len + 52,
            first_id_from(b, 0) == first_id_from(b, k),
            b.len() >= 4 && b.subrange(0, 4) == none_marker(),
        decreases len + 52 - off,
    {
        let id = get_u32(bytes, off);
        assert(56 + 28 * k <= b.len());
        if id != 0 {
            assert(first_id_from(b, k) == Some(id));
            let v: u32 = (id >> 12u32) & 0xFFFu32;
            assert(v < 4096) by (bit_vector)
                requires
                    v == (id >> 12u32) & 0xFFFu32,
            ;
            return Some(v as u16);
        }
        assert(first_id_from(b, k) == first_id_from(b, k + 1));
        if len - off < 32 {
            assert(first_id_from(b, k + 1) is None);
            return None;
        }
        off = off + 28;
        proof {
            k = k + 1;
        }
    }
    None
}

/// Index of the first zero byte in `bytes[start..end)`, relative to `start`,
/// or the field's length.
pub(crate) fn field_text_len(bytes: &[u8], start: usize, end: usize) -> (n: usize)
    requires
        start <= end <= bytes@.len(),
    ensures
        n == text_len(bytes@.subrange(start as int, end as int)),
{
    let ghost field = bytes@.subrange(start as int, end as int);
    let mut i = start;
    while i < end && bytes[i] != 0
        invariant
            start <= i <= end <= bytes@.len(),
            field == bytes@.subrange(start as int, end as int),
            forall|j: int| 0 <= j < i - start ==> field[j] != 0,
        decreases end - i,
    {
        i = i + 1;
    }
    proof {
        lemma_text_len_of(field, i - start);
    }
    i - start
}

impl EntityNames {
    /// Whether `bytes` open like an entity-name DAT: with the `none` marker.
    pub fn check_type(bytes: &[u8]) -> (r: bool)
        ensures
            r == (bytes@.len() >= 4 && bytes@.subrange(0, 4) == none_marker()),
    {
        has_none_marker(bytes)
    }

    /// Reads an entity-name DAT.
    pub fn parse(bytes: &[u8]) -> (r: Result<EntityNames, DatError>)
        ensures
            match r {
                Ok(e) => valid_entity_bytes(bytes@) && e.view_seq() == entity_records(bytes@),
                Err(err) => !valid_entity_bytes(bytes@) && err == entity_error(bytes@),
            },
    {
        if !has_none_marker(bytes) {
            return Err(DatError::Malformed);
        }
        if bytes.len() < 28 || (bytes.len() - 28) % 28 != 0 {
            return Err(DatError::EntityRecords);
        }
        let count = (bytes.len() - 28) / 28;
        let mut names: Vec<EntityName> = Vec::new();
        let mut k: usize = 0;
        while k < count
            invariant
                valid_entity_bytes(bytes@),
                count == (bytes@.len() - 28) / 28,
                k <= count,
                names@.len() == k,
                forall|q: int| 0 <= q < k ==> entity_view(#[trigger] names@[q]) == record_at(bytes@, q),
            decreases count - k,
        {
            assert(bytes@.len() == bytes.len());
            assert(28 + 28 * k + 28 <= bytes@.len()) by (nonlinear_arith)
                requires
                    k < count,
                    count == (bytes@.len() - 28) / 28,
                    bytes@.len() >= 28,
            ;
            let start = 28 + 28 * k;
            let n = field_text_len(bytes, start, start + 24);
            proof {
                lemma_text_len(bytes@.subrange(start as int, start + 24));
            }
            let name = copy_range(bytes, start, start + n);
            let id = read_u32(bytes, start + 24).unwrap();
            proof {
                assert(name@ =~= bytes@.subrange(start as int, start + 24).subrange(0, n as int));
            }
            names.push(EntityName { id, name });
            k = k + 1;
        }
        let e = EntityNames { names };
        assert(e.view_seq() =~= entity_records(bytes@));
        Ok(e)
    }
}

/// The bytes of one record: the name, zero padding to 24 bytes, the ID.
pub open spec fn record_bytes(e: (u32, Seq<u8>)) -> Seq<u8> {
    e.1 + zeros((24 - e.1.len()) as nat) + u32_bytes(e.0)
}

/// The bytes of the records, one after the other.
pub open spec fn records_bytes(es: Seq<(u32, Seq<u8>)>) -> Seq<u8>
    decreases es.len(),
{
    if es.len() == 0 {
        Seq::empty()
    } else {
        records_bytes(es.drop_last()) + record_bytes(es.last())
    }
}

/// The bytes of an entity-name DAT holding `es`: the marker, zeros up to 28
/// bytes, then the records.
pub open spec fn entity_bytes(es: Seq<(u32, Seq<u8>)>) -> Seq<u8> {
    none_marker() + zeros(24) + records_bytes(es)
}

/// Whether every name fits its 24-byte field.
pub open spec fn names_fit(es: Seq<(u32, Seq<u8>)>) -> bool {
    forall|k: int| 0 <= k < es.len() ==> (#[trigger] es[k]).1.len() <= 24
}

impl EntityNames {
    /// Writes the entity-name DAT; a name longer than its 24-byte field
    /// cannot be written.
    pub fn write(&self) -> (r: Result<Vec<u8>, DatError>)
        ensures
            match r {
                Ok(out) => names_fit(self.view_seq()) && out@ == entity_bytes(self.view_seq()),
                Err(err) => !names_fit(self.view_seq()) && err == DatError::Unwritable,
            },
    {
        let ghost es = self.view_seq();
        let mut out: Vec<u8> = Vec::new();
        out.push(110u8);
        out.push(111u8);
        out.push(110u8);
        out.push(101u8);
        push_zeros(&mut out, 24);
        assert(out@ =~= none_marker() + zeros(24));
        let mut k: usize = 0;
        while k < self.names.len()
            invariant
                k <= self.names@.len(),
                es == self.view_seq(),
                names_fit(es.subrange(0, k as int)),
                out@ == none_marker() + zeros(24) + records_bytes(es.subrange(0, k as int)),
            decreases self.names@.len() - k,
        {
            let e = &self.names[k];
            assert(es[k as int] == entity_view(*e));
            if e.name.len() > 24 {
                assert(!names_fit(es));
                return Err(DatError::Unwritable);
            }
            push_bytes(&mut out, e.name.as_slice());
            push_zeros(&mut out, 24 - e.name.len());
            push_u32(&mut out, e.id);
            proof {
                assert(es.subrange(0, k + 1).drop_last() =~= es.subrange(0, k as int));
                assert(out@ =~= none_marker() + zeros(24) + records_bytes(es.subrange(0, k + 1)));
                assert forall|q: int| 0 <= q < k + 1 implies (#[trigger] es.subrange(0, k + 1)[q]).1.len() <= 24 by {
                    if q < k {
                        assert(es.subrange(0, k + 1)[q] == es.subrange(0, k as int)[q]);
                    }
                }
            }
            k = k + 1;
        }
        assert(es.subrange(0, es.len() as int) =~= es);
        Ok(out)
    }
}

proof fn lemma_records_bytes_shape(es: Seq<(u32, Seq<u8>)>)
    requires
        names_fit(es),
    ensures
        records_bytes(es).len() == 28 * es.len(),
        forall|k: int| 0 <= k < es.len() ==> records_bytes(es).subrange(28 * k, 28 * k + 28) == record_bytes(
            #[trigger] es[k],
        ),
    decreases es.len(),
{
    if es.len() > 0 {
        let init = es.drop_last();
        assert(names_fit(init)) by {
            assert forall|k: int| 0 <= k < init.len() implies (#[trigger] init[k]).1.len() <= 24 by {
                assert(init[k] == es[k]);
            }
        }
        lemma_records_bytes_shape(init);
        let last = es.last();
        assert(es[es.len() - 1] == last);
        assert(record_bytes(last).len() == 28);
        assert forall|k: int| 0 <= k < es.len() implies records_bytes(es).subrange(28 * k, 28 * k + 28)
            == record_bytes(#[trigger] es[k]) by {
            if k < es.len() - 1 {
                assert(es[k] == init[k]);
                assert(records_bytes(es).subrange(28 * k, 28 * k + 28) =~= records_bytes(init).subrange(
                    28 * k,
                    28 * k + 28,
                ));
            } else {
                assert(records_bytes(es).subrange(28 * k, 28 * k + 28) =~= record_bytes(last));
            }
        }
    }
}

/// Reading what was written gives back the entities, when every name fits
/// its field and holds no zero byte.
pub proof fn lemma_entity_names_round_trip(es: Seq<(u32, Seq<u8>)>)
    requires
        names_fit(es),
        forall|k: int, i: int| 0 <= k < es.len() && 0 <= i < es[k].1.len() ==> #[trigger] es[k].1[i] != 0,
    ensures
        valid_entity_bytes(entity_bytes(es)),
        entity_records(entity_bytes(es)) == es,
{
    let b = entity_bytes(es);
    lemma_records_bytes_shape(es);
    assert(b.subrange(0, 4) =~= none_marker());
    assert(b.len() == 28 + 28 * es.len());
    assert((b.len() - 28) / 28 == es.len()) by (nonlinear_arith)
        requires
            b.len() == 28 + 28 * es.len(),
    ;
    assert forall|k: int| 0 <= k < es.len() implies #[trigger] record_at(b, k) == es[k] by {
        let start = 28 + 28 * k;
        let rec = records_bytes(es).subrange(28 * k, 28 * k + 28);
        assert(rec == record_bytes(es[k]));
        assert(b.subrange(start, start + 28) =~= rec);
        let name = es[k].1;
        let field = b.subrange(start, start + 24);
        assert(field =~= name + zeros((24 - name.len()) as nat));
        lemma_text_len_of(field, name.len() as int);
        assert(field.subrange(0, name.len() as int) =~= name);
        let idb = u32_bytes(es[k].0);
        assert(rec.subrange(24, 28) =~= idb);
        assert(b[start + 24] == idb[0] && b[start + 25] == idb[1] && b[start + 26] == idb[2]
            && b[start + 27] == idb[3]) by {
            assert(b[start + 24] == b.subrange(start, start + 28)[24]);
            assert(b[start + 25] == b.subrange(start, start + 28)[25]);
            assert(b[start + 26] == b.subrange(start, start + 28)[26]);
            assert(b[start + 27] == b.subrange(start, start + 28)[27]);
        }
        lemma_u32_round_trip(es[k].0);
    }
    assert(entity_records(b) =~= es);
}

/// Writing what was read gives back the bytes, when the header and the name
/// fields hold zeros after their text.
pub proof fn lemma_entity_bytes_round_trip(b: Seq<u8>)
    requires
        valid_entity_bytes(b),
        forall|i: int| 4 <= i < 28 ==> b[i] == 0,
        forall|k: int, i: int|
            0 <= k < (b.len() - 28) / 28 && text_len(b.subrange(28 + 28 * k, 52 + 28 * k)) <= i < 24
                ==> #[trigger] b[28 + 28 * k + i] == 0,
    ensures
        names_fit(entity_records(b)),
        entity_bytes(entity_records(b)) == b,
{
    let es = entity_records(b);
    let n = es.len();
    assert(28 + 28 * n == b.len()) by (nonlinear_arith)
        requires
            n == (b.len() - 28) / 28,
            (b.len() - 28) % 28 == 0,
            b.len() >= 28,
    ;
    assert forall|k: int| 0 <= k < n implies (#[trigger] es[k]).1.len() <= 24 by {
        lemma_text_len(b.subrange(28 + 28 * k, 52 + 28 * k));
    }
    lemma_records_bytes_shape(es);
    let w = entity_bytes(es);
    assert(w.len() == b.len());
    assert forall|i: int| 0 <= i < b.len() implies w[i] == b[i] by {
        if i < 4 {
            assert(w[i] == none_marker()[i]);
            assert(b.subrange(0, 4)[i] == b[i]);
        } else if i < 28 {
        } else {
            let k = (i - 28) / 28;
            let j = (i - 28) % 28;
            assert(0 <= k < n && 0 <= j < 28 && i == 28 + 28 * k + j) by (nonlinear_arith)
                requires
                    28 <= i < 28 + 28 * n,
                    k == (i - 28) / 28,
                    j == (i - 28) % 28,
            ;
            let start = 28 + 28 * k;
            let field = b.subrange(start, start + 24);
            lemma_text_len(field);
            let rec = record_bytes(es[k]);
            assert(records_bytes(es).subrange(28 * k, 28 * k + 28) == rec);
            assert(w[i] == records_bytes(es)[28 * k + j]);
            assert(w[i] == rec[j]);
            if j < text_len(field) {
                assert(rec[j] == field[j]);
            } else if j < 24 {
                assert(b[28 + 28 * k + j] == 0);
            } else {
                lemma_u32_bytes_of_read(b, start + 24);
                assert(rec.subrange(24, 28) =~= u32_bytes(u32_at(b, start + 24)));
                assert(rec[j] == rec.subrange(24, 28)[j - 24]);
                assert(b.subrange(start + 24, start + 28)[j - 24] == b[i]);
            }
        }
    }
    assert(w =~= b);
}

} // verus!
