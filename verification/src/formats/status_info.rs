//! Status-effect info tables. Every status has an entry of a fixed size (one
//! size for the legacy layout, twice that for the modern one): a data block
//! whose bytes are rotated by an amount that depends on their bit counts,
//! then the icon, zero padding and a closing `0xFF` byte.
use vstd::prelude::*;
use crate::bytes::{
    all_zero, check_zero, copy_range, push_bytes, push_u16, push_u32, push_zeros, read_u16,
    read_u32, rotate_all, rotate_seq, rotr, u16_at, u16_bytes, u32_at, u32_bytes, zeros,
};
use crate::error::DatError;
use crate::formats::entity_names::{field_text_len, lemma_text_len, text_len};

verus! {

/// Size of the data block at the start of every entry.
pub const DATA_BLOCK_SIZE: usize = 0x280;
/// Where the description starts in the decoded data block.
pub const DESCRIPTION_START: usize = 44;
/// Room for the description: the rest of the data block.
pub const DESCRIPTION_ROOM: usize = 596;
/// Where the icon starts in an entry: after the block and the icon's size.
pub const ICON_START: usize = 0x284;

/// The two entry sizes a status info table can use.
#[derive(Clone, Copy, Debug, PartialEq, Eq, Structural)]
pub enum StatusInfoLayout {
    Legacy,
    Modern,
}

impl StatusInfoLayout {
    pub open spec fn entry_size_spec(self) -> nat {
        match self {
            StatusInfoLayout::Legacy => 0xC00,
            StatusInfoLayout::Modern => 0x1800,
        }
    }

    /// The byte size of one entry.
    pub fn entry_size(self) -> (r: usize)
        ensures
            r == self.entry_size_spec(),
    {
        match self {
            StatusInfoLayout::Legacy => 0xC00,
            StatusInfoLayout::Modern => 0x1800,
        }
    }
}

/// One status: its ID, its description as encoded text, its two category
/// codes and its icon.
#[derive(Debug, PartialEq, Eq)]
pub struct StatusInfo {
    pub id: u16,
    pub description: Vec<u8>,
    pub cancellable: u8,
    pub system: u8,
    pub icon_bytes: Vec<u8>,
}

impl View for StatusInfo {
    type V = (u16, Seq<u8>, u8, u8, Seq<u8>);

    open spec fn view(&self) -> (u16, Seq<u8>, u8, u8, Seq<u8>) {
        (self.id, self.description@, self.cancellable, self.system, self.icon_bytes@)
    }
}

/// A status info table: its layout and its statuses in file order.
#[derive(Debug, PartialEq, Eq)]
pub struct StatusInfoTable {
    pub layout: StatusInfoLayout,
    pub status_infos: Vec<StatusInfo>,
}

pub open spec fn infos_view(s: Seq<StatusInfo>) -> Seq<(u16, Seq<u8>, u8, u8, Seq<u8>)> {
    s.map_values(|i: StatusInfo| i@)
}

// ---------------------------------------------------------------- the block rotation

/// The number of set bits of a byte.
pub open spec fn popcount(b: u8) -> int {
    (b & 1u8) + ((b >> 1u8) & 1u8) + ((b >> 2u8) & 1u8) + ((b >> 3u8) & 1u8) + ((b >> 4u8) & 1u8) + ((b
        >> 5u8) & 1u8) + ((b >> 6u8) & 1u8) + ((b >> 7u8) & 1u8)
}

/// The rotation picked by a bit-count difference `c`.
pub open spec fn shift_for(c: int) -> u8 {
    let r = (if c < 0 { -c } else { c }) % 5;
    if r == 0 {
        7
    } else if r == 1 {
        1
    } else if r == 2 {
        6
    } else if r == 3 {
        2
    } else {
        5
    }
}

/// The rotation of a data block, from the bit counts of its bytes 2, 11 and
/// 12 (which the rotation does not change).
pub open spec fn block_shift(d: Seq<u8>) -> u8 {
    shift_for(popcount(d[2]) - popcount(d[11]) + popcount(d[12]))
}

/// A stored data block made readable: every byte rotated right.
pub open spec fn decode_block(d: Seq<u8>) -> Seq<u8> {
    rotate_seq(d, block_shift(d))
}

/// A readable data block made ready to store: every byte rotated back.
pub open spec fn encode_block(d: Seq<u8>) -> Seq<u8> {
    rotate_seq(d, (8 - block_shift(d)) as u8)
}

/// Rotating a byte keeps its bit count.
proof fn lemma_popcount_rotr(x: u8, k: u8)
    requires
        1 <= k <= 7,
    ensures
        popcount(rotr(x, k)) == popcount(x),
{
    assert(popcount(rotr(x, k)) == popcount(x)) by (bit_vector)
        requires
            1 <= k <= 7,
    ;
}

/// Rotating by `k` and then by `8 - k` gives the byte back.
proof fn lemma_rotr_back(x: u8, k: u8)
    requires
        1 <= k <= 7,
    ensures
        rotr(rotr(x, k), (8 - k) as u8) == x,
{
    assert(rotr(rotr(x, k), (8 - k) as u8) == x) by (bit_vector)
        requires
            1 <= k <= 7,
    ;
}

/// The rotation picked is between one and seven bits.
proof fn lemma_shift_range(c: int)
    ensures
        1 <= shift_for(c) <= 7,
{
}

/// The client's rotation table: for the bit-count difference `c` of a data
/// block (bits set in byte 2, less those in byte 11, plus those in byte 12),
/// a block is read by rotating every byte right by 7, 1, 6, 2 or 5 bits as
/// `|c| mod 5` is 0, 1, 2, 3 or 4, and stored by rotating every byte right
/// by the rest of the way round: 1, 7, 2, 6 or 3 bits.
pub proof fn lemma_block_rotation_table(d: Seq<u8>)
    requires
        d.len() >= 13,
    ensures
        ({
            let c = popcount(d[2]) - popcount(d[11]) + popcount(d[12]);
            let r = (if c < 0 { -c } else { c }) % 5;
            let (read, store) = if r == 0 {
                (7u8, 1u8)
            } else if r == 1 {
                (1u8, 7u8)
            } else if r == 2 {
                (6u8, 2u8)
            } else if r == 3 {
                (2u8, 6u8)
            } else {
                (5u8, 3u8)
            };
            &&& decode_block(d).len() == d.len()
            &&& encode_block(d).len() == d.len()
            &&& forall|j: int| 0 <= j < d.len() ==> #[trigger] decode_block(d)[j] == rotr(d[j], read)
            &&& forall|j: int| 0 <= j < d.len() ==> #[trigger] encode_block(d)[j] == rotr(d[j], store)
        }),
{
}

/// The bit count of a byte counts its set bits: it is zero only for zero,
/// eight only for 0xFF, and one for each single-bit byte.
pub proof fn lemma_popcount_counts_bits(b: u8)
    ensures
        0 <= popcount(b) <= 8,
        popcount(b) == 0 <==> b == 0,
        popcount(b) == 8 <==> b == 0xFF,
        popcount(1u8) == 1 && popcount(2u8) == 1 && popcount(0x80u8) == 1 && popcount(3u8) == 2,
{
    assert(0 <= popcount(b) <= 8) by (bit_vector);
    assert(popcount(b) == 0 <==> b == 0) by (bit_vector);
    assert(popcount(b) == 8 <==> b == 0xFF) by (bit_vector);
    assert(popcount(1u8) == 1 && popcount(2u8) == 1 && popcount(0x80u8) == 1 && popcount(3u8) == 2) by (bit_vector);
}

/// Decoding a block that was encoded gives it back.
proof fn lemma_decode_encode(d: Seq<u8>)
    requires
        d.len() >= 13,
    ensures
        decode_block(encode_block(d)) == d,
{
    let s = block_shift(d);
    lemma_shift_range(popcount(d[2]) - popcount(d[11]) + popcount(d[12]));
    let k = (8 - s) as u8;
    let e = encode_block(d);
    lemma_popcount_rotr(d[2], k);
    lemma_popcount_rotr(d[11], k);
    lemma_popcount_rotr(d[12], k);
    assert(block_shift(e) == s);
    assert forall|j: int| 0 <= j < d.len() implies #[trigger] decode_block(e)[j] == d[j] by {
        lemma_rotr_back(d[j], k);
        assert((8 - k) as u8 == s);
    }
    assert(decode_block(e) =~= d);
}

/// Encoding a block that was decoded gives the stored bytes back.
proof fn lemma_encode_decode(raw: Seq<u8>)
    requires
        raw.len() >= 13,
    ensures
        encode_block(decode_block(raw)) == raw,
{
    let s = block_shift(raw);
    lemma_shift_range(popcount(raw[2]) - popcount(raw[11]) + popcount(raw[12]));
    let d = decode_block(raw);
    lemma_popcount_rotr(raw[2], s);
    lemma_popcount_rotr(raw[11], s);
    lemma_popcount_rotr(raw[12], s);
    assert(block_shift(d) == s);
    assert forall|j: int| 0 <= j < raw.len() implies #[trigger] encode_block(d)[j] == raw[j] by {
        lemma_rotr_back(raw[j], s);
    }
    assert(encode_block(d) =~= raw);
}

fn popcount_exec(b: u8) -> (r: u32)
    ensures
        r == popcount(b),
{
    (b & 1u8) as u32 + ((b >> 1u8) & 1u8) as u32 + ((b >> 2u8) & 1u8) as u32 + ((b >> 3u8) & 1u8) as u32
        + ((b >> 4u8) & 1u8) as u32 + ((b >> 5u8) & 1u8) as u32 + ((b >> 6u8) & 1u8) as u32 + ((b >> 7u8)
        & 1u8) as u32
}

fn block_shift_exec(d: &[u8]) -> (r: u8)
    requires
        d@.len() >= 13,
    ensures
        r == block_shift(d@),
        1 <= r <= 7,
{
    let c: i32 = popcount_exec(d[2]) as i32 - popcount_exec(d[11]) as i32 + popcount_exec(d[12]) as i32;
    let a: i32 = if c < 0 {
        -c
    } else {
        c
    };
    let r = a % 5;
    if r == 0 {
        7
    } else if r == 1 {
        1
    } else if r == 2 {
        6
    } else if r == 3 {
        2
    } else {
        5
    }
}

// ---------------------------------------------------------------- reading

/// The decoded data block of the entry at `s`.
pub open spec fn entry_block(b: Seq<u8>, s: int) -> Seq<u8> {
    decode_block(b.subrange(s, s + DATA_BLOCK_SIZE))
}

/// The bytes of a decoded block where the description lies, up to its end.
pub open spec fn description_field(d: Seq<u8>) -> Seq<u8> {
    d.subrange(DESCRIPTION_START as int, DATA_BLOCK_SIZE as int)
}

/// Whether a decoded block holds the fixed words 1, 12, 0 and 1, then 24
/// zero bytes, then a description that ends with a zero byte.
pub open spec fn block_ok(d: Seq<u8>) -> bool {
    &&& u32_at(d, 4) == 1
    &&& u32_at(d, 8) == 12
    &&& u32_at(d, 12) == 0
    &&& u32_at(d, 16) == 1
    &&& all_zero(d, 20, 44)
    &&& text_len(description_field(d)) < DESCRIPTION_ROOM
}

/// The icon size the entry at `s` declares.
pub open spec fn icon_size(b: Seq<u8>, s: int) -> u32 {
    u32_at(b, s + DATA_BLOCK_SIZE)
}

/// Whether the entry at `s`, of `e` bytes, reads: a good data block, an
/// icon that leaves room for the closing byte, zero padding and `0xFF` last.
pub open spec fn entry_ok(b: Seq<u8>, s: int, e: int) -> bool {
    &&& block_ok(entry_block(b, s))
    &&& ICON_START + icon_size(b, s) < e
    &&& all_zero(b, s + ICON_START + icon_size(b, s), s + e - 1)
    &&& b[s + e - 1] == 0xFFu8
}

/// The status the entry at `s` holds.
pub open spec fn entry_spec(b: Seq<u8>, s: int) -> (u16, Seq<u8>, u8, u8, Seq<u8>) {
    let d = entry_block(b, s);
    (
        u16_at(d, 0),
        description_field(d).subrange(0, text_len(description_field(d))),
        d[2],
        d[3],
        b.subrange(s + ICON_START, s + ICON_START + icon_size(b, s)),
    )
}

/// Whether `b` reads in layout `l`: whole entries, each of which reads.
pub open spec fn layout_fits(b: Seq<u8>, l: StatusInfoLayout) -> bool {
    let e = l.entry_size_spec() as int;
    &&& (b.len() as int) % e == 0
    &&& forall|k: int| 0 <= k < (b.len() as int) / e ==> #[trigger] entry_ok(b, k * e, e)
}

/// The statuses of `b` read in layout `l`.
pub open spec fn layout_infos(b: Seq<u8>, l: StatusInfoLayout) -> Seq<(u16, Seq<u8>, u8, u8, Seq<u8>)> {
    let e = l.entry_size_spec() as int;
    Seq::new(((b.len() as int) / e) as nat, |k: int| entry_spec(b, k * e))
}

/// What reading `b` gives: the one layout in which it reads with its
/// statuses; a table that reads in both layouts, or in neither, is an error.
pub open spec fn status_parse_spec(b: Seq<u8>) -> Result<
    (StatusInfoLayout, Seq<(u16, Seq<u8>, u8, u8, Seq<u8>)>),
    DatError,
> {
    let legacy = layout_fits(b, StatusInfoLayout::Legacy);
    let modern = layout_fits(b, StatusInfoLayout::Modern);
    if legacy && modern {
        Err(DatError::StatusInfoLayouts(b.len() as usize))
    } else if legacy {
        Ok((StatusInfoLayout::Legacy, layout_infos(b, StatusInfoLayout::Legacy)))
    } else if modern {
        Ok((StatusInfoLayout::Modern, layout_infos(b, StatusInfoLayout::Modern)))
    } else {
        Err(DatError::StatusInfoLength(b.len() as usize))
    }
}

/// Reads the entry of `e` bytes at `s`.
fn parse_entry(bytes: &[u8], s: usize, e: usize) -> (r: Option<StatusInfo>)
    requires
        s + e <= bytes@.len(),
        e > ICON_START,
    ensures
        r is Some <==> entry_ok(bytes@, s as int, e as int),
        r matches Some(i) ==> i@ == entry_spec(bytes@, s as int),
{
    let ghost b = bytes@;
    let len = bytes.len();
    assert(s + DATA_BLOCK_SIZE <= len);
    let mut block = copy_range(bytes, s, s + DATA_BLOCK_SIZE);
    let shift = block_shift_exec(block.as_slice());
    rotate_all(&mut block, shift);
    let ghost d = block@;
    assert(d == entry_block(b, s as int));
    if get_word(&block, 4) != 1 || get_word(&block, 8) != 12 || get_word(&block, 12) != 0
        || get_word(&block, 16) != 1 || !check_zero(block.as_slice(), 20, 44) {
        return None;
    }
    let n = field_text_len(block.as_slice(), DESCRIPTION_START, DATA_BLOCK_SIZE);
    proof {
        lemma_text_len(description_field(d));
    }
    if n >= DESCRIPTION_ROOM {
        return None;
    }
    let icon = read_u32(bytes, s + DATA_BLOCK_SIZE).unwrap();
    if icon as u64 + ICON_START as u64 >= e as u64 {
        return None;
    }
    assert(s + ICON_START + icon < len);
    let icon_end = s + ICON_START + icon as usize;
    if !check_zero(bytes, icon_end, s + e - 1) || bytes[s + e - 1] != 0xFFu8 {
        return None;
    }
    let description = copy_range(block.as_slice(), DESCRIPTION_START, DESCRIPTION_START + n);
    assert(description@ =~= description_field(d).subrange(0, text_len(description_field(d))));
    let icon_bytes = copy_range(bytes, s + ICON_START, icon_end);
    let id = read_u16(block.as_slice(), 0).unwrap();
    Some(StatusInfo { id, description, cancellable: block[2], system: block[3], icon_bytes })
}

fn get_word(block: &Vec<u8>, offset: usize) -> (r: u32)
    requires
        offset + 4 <= block@.len(),
    ensures
        r == u32_at(block@, offset as int),
{
    read_u32(block.as_slice(), offset).unwrap()
}

/// Reads `bytes` in layout `l`, or `None` where it does not read in it.
fn parse_layout(bytes: &[u8], l: StatusInfoLayout) -> (r: Option<Vec<StatusInfo>>)
    ensures
        r is Some <==> layout_fits(bytes@, l),
        r matches Some(v) ==> infos_view(v@) == layout_infos(bytes@, l),
{
    let ghost b = bytes@;
    let len = bytes.len();
    let e = l.entry_size();
    if bytes.len() % e != 0 {
        return None;
    }
    let n = bytes.len() / e;
    let mut out: Vec<StatusInfo> = Vec::new();
    let mut k: usize = 0;
    while k < n
        invariant
            b == bytes@,
            len == b.len(),
            e == l.entry_size_spec(),
            e == 0xC00 || e == 0x1800,
            (b.len() as int) % (e as int) == 0,
            n == (b.len() as int) / (e as int),
            k <= n,
            out@.len() == k,
            forall|q: int| 0 <= q < k ==> #[trigger] entry_ok(b, q * e, e as int),
            forall|q: int| 0 <= q < k ==> (#[trigger] out@[q])@ == entry_spec(b, q * e),
        decreases n - k,
    {
        assert(k * e + e <= b.len()) by (nonlinear_arith)
            requires
                k < n,
                n == (b.len() as int) / (e as int),
                e > 0,
        ;
        let s = k * e;
        match parse_entry(bytes, s, e) {
            Some(info) => out.push(info),
            None => {
                proof {
                    assert(!entry_ok(b, k * e, e as int));
                }
                return None;
            },
        }
        k = k + 1;
    }
    assert(infos_view(out@) =~= layout_infos(b, l));
    Some(out)
}

impl StatusInfoTable {
    pub open spec fn infos(&self) -> Seq<(u16, Seq<u8>, u8, u8, Seq<u8>)> {
        infos_view(self.status_infos@)
    }

    /// Reads a status info table in whichever of the two layouts it reads.
    pub fn parse(bytes: &[u8]) -> (r: Result<StatusInfoTable, DatError>)
        ensures
            match (r, status_parse_spec(bytes@)) {
                (Ok(t), Ok((l, infos))) => t.layout == l && t.infos() == infos,
                (Err(e), Err(f)) => e == f,
                _ => false,
            },
    {
        let legacy = parse_layout(bytes, StatusInfoLayout::Legacy);
        let modern = parse_layout(bytes, StatusInfoLayout::Modern);
        match (legacy, modern) {
            (Some(_), Some(_)) => Err(DatError::StatusInfoLayouts(bytes.len())),
            (Some(v), None) => Ok(StatusInfoTable { layout: StatusInfoLayout::Legacy, status_infos: v }),
            (None, Some(v)) => Ok(StatusInfoTable { layout: StatusInfoLayout::Modern, status_infos: v }),
            (None, None) => Err(DatError::StatusInfoLength(bytes.len())),
        }
    }

    /// Whether `bytes` hold a status info table: whether it reads.
    pub fn check_type(bytes: &[u8]) -> (r: bool)
        ensures
            r == status_parse_spec(bytes@) is Ok,
    {
        StatusInfoTable::parse(bytes).is_ok()
    }
}

// ---------------------------------------------------------------- writing

/// The readable data block of a status: ID, the two codes, the fixed words
/// 1, 12, 0 and 1, 24 zero bytes, the description and zeros to the end.
pub open spec fn block_bytes(i: (u16, Seq<u8>, u8, u8, Seq<u8>)) -> Seq<u8> {
    u16_bytes(i.0) + seq![i.2, i.3] + u32_bytes(1) + u32_bytes(12) + u32_bytes(0) + u32_bytes(1)
        + zeros(24) + i.1 + zeros((DESCRIPTION_ROOM - i.1.len()) as nat)
}

/// Whether a status fits an entry of `e` bytes: the description fits the
/// data block, and the icon leaves room for the closing byte.
pub open spec fn entry_writable(i: (u16, Seq<u8>, u8, u8, Seq<u8>), e: int) -> bool {
    &&& i.1.len() <= DESCRIPTION_ROOM
    &&& ICON_START + i.4.len() < e
}

/// The entry of `e` bytes that holds a status.
pub open spec fn entry_bytes(i: (u16, Seq<u8>, u8, u8, Seq<u8>), e: int) -> Seq<u8> {
    encode_block(block_bytes(i)) + u32_bytes(i.4.len() as u32) + i.4 + zeros(
        (e - ICON_START - i.4.len() - 1) as nat,
    ) + seq![0xFFu8]
}

/// Whether every status fits an entry of `e` bytes.
pub open spec fn infos_writable(s: Seq<(u16, Seq<u8>, u8, u8, Seq<u8>)>, e: int) -> bool {
    forall|k: int| 0 <= k < s.len() ==> entry_writable(#[trigger] s[k], e)
}

/// The entries of the statuses, one after the other.
pub open spec fn infos_bytes(s: Seq<(u16, Seq<u8>, u8, u8, Seq<u8>)>, e: int) -> Seq<u8>
    decreases s.len(),
{
    if s.len() == 0 {
        Seq::empty()
    } else {
        infos_bytes(s.drop_last(), e) + entry_bytes(s.last(), e)
    }
}

/// Appends the entry of `e` bytes that holds `info`.
fn write_entry(out: &mut Vec<u8>, info: &StatusInfo, e: usize)
    requires
        entry_writable(info@, e as int),
        e == 0xC00 || e == 0x1800,
    ensures
        final(out)@ == old(out)@ + entry_bytes(info@, e as int),
{
    let ghost start = out@;
    let mut block: Vec<u8> = Vec::new();
    push_u16(&mut block, info.id);
    block.push(info.cancellable);
    block.push(info.system);
    push_u32(&mut block, 1);
    push_u32(&mut block, 12);
    push_u32(&mut block, 0);
    push_u32(&mut block, 1);
    push_zeros(&mut block, 24);
    push_bytes(&mut block, info.description.as_slice());
    push_zeros(&mut block, DESCRIPTION_ROOM - info.description.len());
    assert(block@ =~= block_bytes(info@));
    let shift = block_shift_exec(block.as_slice());
    rotate_all(&mut block, 8 - shift);
    push_bytes(out, block.as_slice());
    push_u32(out, info.icon_bytes.len() as u32);
    push_bytes(out, info.icon_bytes.as_slice());
    push_zeros(out, e - ICON_START - info.icon_bytes.len() - 1);
    out.push(0xFFu8);
    assert(out@ =~= start + entry_bytes(info@, e as int));
}

impl StatusInfoTable {
    /// Writes every status as an entry of the table's layout; a status that
    /// does not fit its entry cannot be written.
    pub fn write(&self) -> (r: Result<Vec<u8>, DatError>)
        ensures
            match r {
                Ok(out) => infos_writable(self.infos(), self.layout.entry_size_spec() as int) && out@
                    == infos_bytes(self.infos(), self.layout.entry_size_spec() as int),
                Err(err) => !infos_writable(self.infos(), self.layout.entry_size_spec() as int) && err
                    == DatError::Unwritable,
            },
    {
        let e = self.layout.entry_size();
        let ghost infos = self.infos();
        let mut out: Vec<u8> = Vec::new();
        let mut k: usize = 0;
        while k < self.status_infos.len()
            invariant
                e == self.layout.entry_size_spec(),
                e == 0xC00 || e == 0x1800,
                infos == self.infos(),
                infos.len() == self.status_infos@.len(),
                k <= infos.len(),
                infos_writable(infos.subrange(0, k as int), e as int),
                out@ == infos_bytes(infos.subrange(0, k as int), e as int),
            decreases infos.len() - k,
        {
            let info = &self.status_infos[k];
            assert(infos[k as int] == info@);
            if info.description.len() > DESCRIPTION_ROOM || info.icon_bytes.len() >= e - ICON_START {
                proof {
                    assert(!entry_writable(infos[k as int], e as int));
                }
                return Err(DatError::Unwritable);
            }
            write_entry(&mut out, info, e);
            proof {
                let next = infos.subrange(0, k + 1);
                assert(next.drop_last() =~= infos.subrange(0, k as int));
                assert(next.last() == infos[k as int]);
                assert forall|q: int| 0 <= q < next.len() implies entry_writable(#[trigger] next[q], e as int) by {
                    if q < k {
                        assert(next[q] == infos.subrange(0, k as int)[q]);
                    }
                }
            }
            k = k + 1;
        }
        assert(infos.subrange(0, infos.len() as int) =~= infos);
        Ok(out)
    }
}

// ---------------------------------------------------------------- round trips

/// Whether a status reads back from its entry of `e` bytes: its description
/// has no zero byte and leaves room for the zero that ends it, and its icon
/// leaves room for the closing byte.
pub open spec fn entry_readable(x: (u16, Seq<u8>, u8, u8, Seq<u8>), e: int) -> bool {
    &&& x.1.len() < DESCRIPTION_ROOM
    &&& forall|j: int| 0 <= j < x.1.len() ==> #[trigger] x.1[j] != 0
    &&& ICON_START + x.4.len() < e
}

/// An entry is as long as the layout says.
proof fn lemma_entry_len(x: (u16, Seq<u8>, u8, u8, Seq<u8>), e: int)
    requires
        entry_writable(x, e),
    ensures
        block_bytes(x).len() == DATA_BLOCK_SIZE,
        entry_bytes(x, e).len() == e,
{
}

/// The entry of `e` bytes at `s` that holds `x` reads, and gives `x`.
proof fn lemma_entry_reads(b: Seq<u8>, s: int, x: (u16, Seq<u8>, u8, u8, Seq<u8>), e: int)
    requires
        0 <= s,
        s + e <= b.len(),
        e == 0xC00 || e == 0x1800,
        entry_readable(x, e),
        b.subrange(s, s + e) == entry_bytes(x, e),
    ensures
        entry_ok(b, s, e),
        entry_spec(b, s) == x,
{
    lemma_entry_len(x, e);
    let d = block_bytes(x);
    let enc = encode_block(d);
    let c = x.4.len() as int;
    let eb = entry_bytes(x, e);
    assert forall|j: int| 0 <= j < e implies b[s + j] == #[trigger] eb[j] by {
        assert(b.subrange(s, s + e)[j] == b[s + j]);
    }
    assert(eb.subrange(0, 640) =~= enc);
    assert(b.subrange(s, s + 640) =~= enc) by {
        assert forall|j: int| 0 <= j < 640 implies b.subrange(s, s + 640)[j] == enc[j] by {
            assert(eb[j] == enc[j]);
        }
    }
    lemma_decode_encode(d);
    assert(entry_block(b, s) == d);
    assert(d.subrange(0, 2) =~= u16_bytes(x.0));
    crate::bytes::lemma_u16_at_placed(d, 0, x.0);
    assert(d.subrange(4, 8) =~= u32_bytes(1));
    crate::bytes::lemma_u32_at_placed(d, 4, 1);
    assert(d.subrange(8, 12) =~= u32_bytes(12));
    crate::bytes::lemma_u32_at_placed(d, 8, 12);
    assert(d.subrange(12, 16) =~= u32_bytes(0));
    crate::bytes::lemma_u32_at_placed(d, 12, 0);
    assert(d.subrange(16, 20) =~= u32_bytes(1));
    crate::bytes::lemma_u32_at_placed(d, 16, 1);
    assert(all_zero(d, 20, 44));
    let field = description_field(d);
    assert(field =~= x.1 + zeros((DESCRIPTION_ROOM - x.1.len()) as nat));
    crate::formats::entity_names::lemma_text_len_of(field, x.1.len() as int);
    assert(field.subrange(0, text_len(field)) =~= x.1);
    assert(block_ok(d));
    assert(eb.subrange(640, 644) =~= u32_bytes(c as u32));
    assert(b.subrange(s + 640, s + 644) =~= u32_bytes(c as u32)) by {
        assert forall|j: int| 0 <= j < 4 implies #[trigger] b.subrange(s + 640, s + 644)[j] == u32_bytes(c as u32)[j] by {
            assert(eb[640 + j] == eb.subrange(640, 644)[j]);
        }
    }
    crate::bytes::lemma_u32_at_placed(b, s + 640, c as u32);
    assert(icon_size(b, s) == c);
    assert forall|j: int| s + ICON_START + c <= j < s + e - 1 implies b[j] == 0 by {
        assert(eb[j - s] == 0);
    }
    assert(b[s + e - 1] == eb[e - 1]);
    assert(b.subrange(s + ICON_START, s + ICON_START + c) =~= x.4) by {
        assert forall|j: int| 0 <= j < c implies b.subrange(s + ICON_START, s + ICON_START + c)[j] == x.4[j] by {
            assert(eb[644 + j] == x.4[j]);
        }
    }
}

/// The written table is the entries one after the other, each `e` bytes.
proof fn lemma_infos_layout(i: Seq<(u16, Seq<u8>, u8, u8, Seq<u8>)>, e: int)
    requires
        e > 0,
        infos_writable(i, e),
    ensures
        infos_bytes(i, e).len() == i.len() * e,
        forall|k: int|
            0 <= k < i.len() ==> #[trigger] infos_bytes(i, e).subrange(k * e, k * e + e) == entry_bytes(i[k], e),
    decreases i.len(),
{
    if i.len() > 0 {
        let p = i.drop_last();
        assert forall|k: int| 0 <= k < p.len() implies entry_writable(#[trigger] p[k], e) by {
            assert(p[k] == i[k]);
        }
        lemma_infos_layout(p, e);
        let n = i.len() as int;
        let pb = infos_bytes(p, e);
        lemma_entry_len(i[n - 1], e);
        let b = infos_bytes(i, e);
        assert(b == pb + entry_bytes(i.last(), e));
        assert((n - 1) * e + e == n * e) by (nonlinear_arith);
        assert forall|k: int| 0 <= k < i.len() implies #[trigger] b.subrange(k * e, k * e + e) == entry_bytes(i[k], e) by {
            if k < n - 1 {
                assert(k * e + e <= (n - 1) * e) by (nonlinear_arith)
                    requires
                        k < n - 1,
                        e > 0,
                ;
                assert(0 <= k * e) by (nonlinear_arith)
                    requires
                        0 <= k,
                        e > 0,
                ;
                assert(b.subrange(k * e, k * e + e) =~= pb.subrange(k * e, k * e + e));
                assert(p[k] == i[k]);
            } else {
                assert(b.subrange(k * e, k * e + e) =~= entry_bytes(i.last(), e));
            }
        }
    }
}

/// Bytes made of the entries of `i`, one after the other, are the table
/// written from `i`.
proof fn lemma_infos_bytes_of(b: Seq<u8>, i: Seq<(u16, Seq<u8>, u8, u8, Seq<u8>)>, e: int)
    requires
        e > 0,
        infos_writable(i, e),
        b.len() == i.len() * e,
        forall|k: int| 0 <= k < i.len() ==> #[trigger] b.subrange(k * e, k * e + e) == entry_bytes(i[k], e),
    ensures
        infos_bytes(i, e) == b,
    decreases i.len(),
{
    if i.len() == 0 {
        assert(b =~= Seq::<u8>::empty());
    } else {
        let n = i.len() as int;
        let p = i.drop_last();
        assert((n - 1) * e + e == n * e) by (nonlinear_arith);
        assert(0 <= (n - 1) * e) by (nonlinear_arith)
            requires
                n >= 1,
                e > 0,
        ;
        let pb = b.subrange(0, (n - 1) * e);
        assert forall|k: int| 0 <= k < p.len() implies entry_writable(#[trigger] p[k], e) by {
            assert(p[k] == i[k]);
        }
        assert forall|k: int| 0 <= k < p.len() implies #[trigger] pb.subrange(k * e, k * e + e) == entry_bytes(p[k], e) by {
            assert(k * e + e <= (n - 1) * e) by (nonlinear_arith)
                requires
                    k < n - 1,
                    e > 0,
            ;
            assert(0 <= k * e) by (nonlinear_arith)
                requires
                    0 <= k,
                    e > 0,
            ;
            assert(pb.subrange(k * e, k * e + e) =~= b.subrange(k * e, k * e + e));
            assert(p[k] == i[k]);
            assert(b.subrange(k * e, k * e + e) == entry_bytes(i[k], e));
        }
        lemma_infos_bytes_of(pb, p, e);
        assert(b.subrange((n - 1) * e, (n - 1) * e + e) == entry_bytes(i[n - 1], e));
        assert(b =~= pb + b.subrange((n - 1) * e, n * e));
    }
}

/// A table written from statuses that read back reads in its own layout,
/// with those statuses.
proof fn lemma_written_fits(l: StatusInfoLayout, i: Seq<(u16, Seq<u8>, u8, u8, Seq<u8>)>)
    requires
        forall|k: int| 0 <= k < i.len() ==> entry_readable(#[trigger] i[k], l.entry_size_spec() as int),
    ensures
        infos_writable(i, l.entry_size_spec() as int),
        infos_bytes(i, l.entry_size_spec() as int).len() == i.len() * l.entry_size_spec(),
        layout_fits(infos_bytes(i, l.entry_size_spec() as int), l),
        layout_infos(infos_bytes(i, l.entry_size_spec() as int), l) == i,
{
    let e = l.entry_size_spec() as int;
    let n = i.len() as int;
    assert forall|k: int| 0 <= k < n implies entry_writable(#[trigger] i[k], e) by {
        assert(entry_readable(i[k], e));
    }
    lemma_infos_layout(i, e);
    let b = infos_bytes(i, e);
    assert((b.len() as int) % e == 0 && (b.len() as int) / e == n) by (nonlinear_arith)
        requires
            b.len() == n * e,
            e > 0,
    ;
    assert forall|k: int| 0 <= k < n implies #[trigger] entry_ok(b, k * e, e) && entry_spec(b, k * e) == i[k] by {
        assert(k * e + e <= n * e) by (nonlinear_arith)
            requires
                k < n,
                e > 0,
        ;
        assert(0 <= k * e) by (nonlinear_arith)
            requires
                0 <= k,
                e > 0,
        ;
        assert(b.subrange(k * e, k * e + e) == entry_bytes(i[k], e));
        lemma_entry_reads(b, k * e, i[k], e);
    }
    assert(layout_fits(b, l));
    let li = layout_infos(b, l);
    assert(li.len() == n);
    assert forall|k: int| 0 <= k < n implies li[k] == i[k] by {
        assert(entry_ok(b, k * e, e));
    }
    assert(li =~= i);
}

/// A status info table written from statuses that read back gives those
/// statuses, in the layout it was written in, when read: every entry reads,
/// and the other layout does not (its reader meets the closing `0xFF` byte
/// of the first entry, or its padding). A table without statuses reads in
/// both layouts and is left out.
pub proof fn lemma_status_round_trip(l: StatusInfoLayout, i: Seq<(u16, Seq<u8>, u8, u8, Seq<u8>)>)
    requires
        i.len() > 0,
        forall|k: int| 0 <= k < i.len() ==> entry_readable(#[trigger] i[k], l.entry_size_spec() as int),
    ensures
        infos_writable(i, l.entry_size_spec() as int),
        status_parse_spec(infos_bytes(i, l.entry_size_spec() as int)) == Ok::<
            (StatusInfoLayout, Seq<(u16, Seq<u8>, u8, u8, Seq<u8>)>),
            DatError,
        >((l, i)),
{
    let e = l.entry_size_spec() as int;
    let n = i.len() as int;
    lemma_written_fits(l, i);
    let b = infos_bytes(i, e);
    assert(n * e >= e) by (nonlinear_arith)
        requires
            n >= 1,
            e > 0,
    ;
    assert(0 * e == 0);
    assert(0 < (b.len() as int) / e);
    assert(entry_ok(b, 0 * e, e));
    let c0 = icon_size(b, 0);
    match l {
        StatusInfoLayout::Legacy => {
            let m = StatusInfoLayout::Modern;
            if (b.len() as int) % 0x1800 == 0 {
                assert(b.len() >= 0x1800);
                assert(!entry_ok(b, 0, 0x1800)) by {
                    assert(b[0xBFF] == 0xFFu8);
                    assert(ICON_START + c0 <= 0xBFF);
                }
                assert(0 * 0x1800 == 0);
                assert((b.len() as int) / 0x1800 >= 1);
                assert(!layout_fits(b, m));
            }
        },
        StatusInfoLayout::Modern => {
            let m = StatusInfoLayout::Legacy;
            assert(!entry_ok(b, 0, 0xC00)) by {
                if ICON_START + c0 < 0xC00 {
                    assert(b[0xBFF] == 0u8);
                }
            }
            assert(0 * 0xC00 == 0);
            assert((b.len() as int) / 0xC00 >= 1);
            assert(!layout_fits(b, m));
        },
    }
}

/// Whether the decoded data block of the entry at `s` holds only zeros
/// after the zero that ends its description (the reader does not look there).
pub open spec fn block_tail_clear(b: Seq<u8>, s: int) -> bool {
    let d = entry_block(b, s);
    all_zero(d, DESCRIPTION_START + text_len(description_field(d)), DATA_BLOCK_SIZE as int)
}

/// Whether every entry of `b` in layout `l` has a clear block tail.
pub open spec fn tails_clear(b: Seq<u8>, l: StatusInfoLayout) -> bool {
    let e = l.entry_size_spec() as int;
    forall|k: int| 0 <= k < (b.len() as int) / e ==> #[trigger] block_tail_clear(b, k * e)
}

/// An entry that reads, with a clear block tail, is written back as it was.
proof fn lemma_entry_writes(b: Seq<u8>, s: int, e: int)
    requires
        0 <= s,
        s + e <= b.len(),
        e == 0xC00 || e == 0x1800,
        entry_ok(b, s, e),
        block_tail_clear(b, s),
    ensures
        entry_writable(entry_spec(b, s), e),
        entry_bytes(entry_spec(b, s), e) == b.subrange(s, s + e),
{
    let raw = b.subrange(s, s + 640);
    let d = entry_block(b, s);
    let field = description_field(d);
    crate::formats::entity_names::lemma_text_len(field);
    let t = text_len(field);
    let x = entry_spec(b, s);
    let c = icon_size(b, s) as int;
    assert(x.4.len() == c);
    lemma_entry_len(x, e);
    crate::bytes::lemma_u16_bytes_of_read(d, 0);
    crate::bytes::lemma_u32_bytes_of_read(d, 4);
    crate::bytes::lemma_u32_bytes_of_read(d, 8);
    crate::bytes::lemma_u32_bytes_of_read(d, 12);
    crate::bytes::lemma_u32_bytes_of_read(d, 16);
    let bb = block_bytes(x);
    assert forall|j: int| 0 <= j < 640 implies #[trigger] bb[j] == d[j] by {
        if j < 2 {
            assert(d.subrange(0, 2)[j] == d[j]);
        } else if j < 4 {
        } else if j < 8 {
            assert(d.subrange(4, 8)[j - 4] == d[j]);
        } else if j < 12 {
            assert(d.subrange(8, 12)[j - 8] == d[j]);
        } else if j < 16 {
            assert(d.subrange(12, 16)[j - 12] == d[j]);
        } else if j < 20 {
            assert(d.subrange(16, 20)[j - 16] == d[j]);
        } else if j < 44 {
        } else if j < 44 + t {
            assert(field[j - 44] == d[j]);
        } else {
        }
    }
    assert(bb =~= d);
    lemma_encode_decode(raw);
    assert(encode_block(bb) == raw);
    crate::bytes::lemma_u32_bytes_of_read(b, s + 640);
    let eb = entry_bytes(x, e);
    assert forall|j: int| 0 <= j < e implies #[trigger] eb[j] == b.subrange(s, s + e)[j] by {
        if j < 640 {
            assert(raw[j] == b[s + j]);
        } else if j < 644 {
            assert(b.subrange(s + 640, s + 644)[j - 640] == b[s + j]);
        } else if j < 644 + c {
            assert(x.4[j - 644] == b[s + j]);
        } else if j < e - 1 {
            assert(b[s + j] == 0);
        } else {
        }
    }
    assert(eb =~= b.subrange(s, s + e));
}

/// A status info table that reads, with every block tail clear, is what
/// writing the statuses read from it gives.
pub proof fn lemma_status_bytes_round_trip(b: Seq<u8>)
    requires
        status_parse_spec(b) is Ok,
        tails_clear(b, status_parse_spec(b)->Ok_0.0),
    ensures
        ({
            let (l, i) = status_parse_spec(b)->Ok_0;
            &&& infos_writable(i, l.entry_size_spec() as int)
            &&& infos_bytes(i, l.entry_size_spec() as int) == b
        }),
{
    let (l, i) = status_parse_spec(b)->Ok_0;
    let e = l.entry_size_spec() as int;
    assert(layout_fits(b, l));
    assert(i == layout_infos(b, l));
    let n = (b.len() as int) / e;
    assert(b.len() == n * e) by (nonlinear_arith)
        requires
            (b.len() as int) % e == 0,
            n == (b.len() as int) / e,
            e > 0,
    ;
    assert forall|k: int| 0 <= k < n implies entry_writable(#[trigger] i[k], e) && b.subrange(k * e, k * e + e)
        == entry_bytes(i[k], e) by {
        assert(k * e + e <= n * e) by (nonlinear_arith)
            requires
                k < n,
                e > 0,
        ;
        assert(0 <= k * e) by (nonlinear_arith)
            requires
                0 <= k,
                e > 0,
        ;
        assert(entry_ok(b, k * e, e));
        assert(block_tail_clear(b, k * e));
        lemma_entry_writes(b, k * e, e);
    }
    lemma_infos_bytes_of(b, i, e);
}

} // verus!
