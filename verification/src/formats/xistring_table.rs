use vstd::prelude::*;
use crate::bytes::{
    all_zero, check_zero, copy_range, push_bytes, push_u16, push_u32, push_zeros, read_u16,
    read_u32, u16_at, u16_bytes, u32_at, u32_bytes, zeros,
};
use crate::error::DatError;
use crate::formats::entity_names::{field_text_len, lemma_text_len, text_len};

verus! {

/// Size of the header of a string table.
pub const HEADER_SIZE: u32 = 56;

/// Header marker of tables made from scratch.
pub const DEFAULT_HEADER_MARKER: u32 = 304091210;

/// The header marker that new tables carry.
pub fn default_header_marker() -> (m: u32)
    ensures
        m == DEFAULT_HEADER_MARKER,
{
    DEFAULT_HEADER_MARKER
}

/// Three numbers stored beside each string, whose meaning is unknown.
#[derive(Clone, Copy, Debug, PartialEq, Eq, Structural)]
pub struct XiStringMetadata {
    pub unknown1: u16,
    pub unknown2: u16,
    pub unknown3: u16,
}

pub open spec fn zero_metadata() -> XiStringMetadata {
    XiStringMetadata { unknown1: 0, unknown2: 0, unknown3: 0 }
}

/// A table of strings by index, the strings as encoded text, with the
/// metadata of the entries whose metadata is not all zero.
#[derive(Debug, PartialEq, Eq)]
pub struct XiStringTable {
    pub header_marker: u32,
    pub metadata: Vec<(u32, XiStringMetadata)>,
    pub strings: Vec<(u32, Vec<u8>)>,
}

impl Default for XiStringTable {
    /// An empty table with the usual header marker.
    fn default() -> (t: XiStringTable)
        ensures
            t.header_marker == DEFAULT_HEADER_MARKER,
            t.metadata@.len() == 0,
            t.strings@.len() == 0,
    {
        XiStringTable { header_marker: DEFAULT_HEADER_MARKER, metadata: Vec::new(), strings: Vec::new() }
    }
}

/// `XISTRING` followed by two zero bytes.
pub open spec fn xistring_magic() -> Seq<u8> {
    seq![88u8, 73u8, 83u8, 84u8, 82u8, 73u8, 78u8, 71u8, 0u8, 0u8]
}

// ---------------------------------------------------------------- reading

/// Whether the header of `b` is consistent: magic, version 2, zero padding,
/// the file size, twelve metadata bytes per entry, the sizes adding up, and
/// a zero field.
#[verifier::opaque]
pub open spec fn header_ok(b: Seq<u8>) -> bool {
    &&& b.len() >= 56
    &&& b.subrange(0, 10) == xistring_magic()
    &&& u16_at(b, 10) == 2
    &&& all_zero(b, 12, 32)
    &&& u32_at(b, 32) == b.len()
    &&& u32_at(b, 40) == u32_at(b, 36) * 12
    &&& b.len() == 56 + u32_at(b, 40) + u32_at(b, 44)
    &&& u32_at(b, 48) == 0
}

pub open spec fn entry_count_of(b: Seq<u8>) -> int {
    u32_at(b, 36) as int
}

pub open spec fn meta_offset(b: Seq<u8>, k: int) -> u32 {
    u32_at(b, 56 + 12 * k)
}

pub open spec fn meta_size(b: Seq<u8>, k: int) -> u16 {
    u16_at(b, 60 + 12 * k)
}

pub open spec fn meta_data(b: Seq<u8>, k: int) -> XiStringMetadata {
    XiStringMetadata {
        unknown1: u16_at(b, 62 + 12 * k),
        unknown2: u16_at(b, 64 + 12 * k),
        unknown3: u16_at(b, 66 + 12 * k),
    }
}

/// Where string `k` starts, relative to the string data: the sizes of the
/// strings before it, added up.
pub open spec fn slot_start(b: Seq<u8>, k: int) -> int
    decreases k,
{
    if k <= 0 {
        0
    } else {
        slot_start(b, k - 1) + meta_size(b, k - 1)
    }
}

/// Whether string `k` starts where its metadata says, and fits in the file.
pub open spec fn slot_ok(b: Seq<u8>, k: int) -> bool {
    &&& meta_offset(b, k) == slot_start(b, k)
    &&& 56 + 12 * entry_count_of(b) + slot_start(b, k) + meta_size(b, k) <= b.len()
}

/// Whether `b` is a string table.
pub open spec fn valid_xistring(b: Seq<u8>) -> bool {
    &&& header_ok(b)
    &&& forall|k: int| 0 <= k < entry_count_of(b) ==> #[trigger] slot_ok(b, k)
}

/// The text of string `k`: the bytes of its slot before the first zero.
pub open spec fn slot_text(b: Seq<u8>, k: int) -> Seq<u8> {
    let p = 56 + 12 * entry_count_of(b) + slot_start(b, k);
    let field = b.subrange(p, p + meta_size(b, k));
    field.subrange(0, text_len(field))
}

/// The entries among the first `n` whose metadata is not all zero.
pub open spec fn nonzero_metadata(b: Seq<u8>, n: int) -> Seq<(u32, XiStringMetadata)>
    decreases n,
{
    if n <= 0 {
        Seq::empty()
    } else if meta_data(b, n - 1) != zero_metadata() {
        nonzero_metadata(b, n - 1).push(((n - 1) as u32, meta_data(b, n - 1)))
    } else {
        nonzero_metadata(b, n - 1)
    }
}

/// The entries of `nonzero_metadata(b, n)` have indices below `n`, in
/// increasing order.
proof fn lemma_nonzero_metadata_keys(b: Seq<u8>, n: int)
    requires
        0 <= n <= u32::MAX as int + 1,
    ensures
        forall|i: int| 0 <= i < nonzero_metadata(b, n).len() ==> (#[trigger] nonzero_metadata(b, n)[i]).0 < n,
        forall|i: int, j: int|
            0 <= i < j < nonzero_metadata(b, n).len() ==> (#[trigger] nonzero_metadata(b, n)[i]).0 < (
            #[trigger] nonzero_metadata(b, n)[j]).0,
    decreases n,
{
    if n > 0 {
        lemma_nonzero_metadata_keys(b, n - 1);
        let prev = nonzero_metadata(b, n - 1);
        let cur = nonzero_metadata(b, n);
        if meta_data(b, n - 1) != zero_metadata() {
            assert(cur == prev.push(((n - 1) as u32, meta_data(b, n - 1))));
            assert(((n - 1) as u32) as int == n - 1);
            assert forall|i: int| 0 <= i < cur.len() implies (#[trigger] cur[i]).0 < n by {
                if i < prev.len() {
                    assert(cur[i] == prev[i]);
                }
            }
            assert forall|i: int, j: int| 0 <= i < j < cur.len() implies (#[trigger] cur[i]).0 < (
            #[trigger] cur[j]).0 by {
                assert(cur[i] == prev[i]);
                if j < prev.len() {
                    assert(cur[j] == prev[j]);
                }
            }
        } else {
            assert(cur == prev);
        }
    }
}

pub open spec fn strings_view(s: Seq<(u32, Vec<u8>)>) -> Seq<(u32, Seq<u8>)> {
    s.map_values(|e: (u32, Vec<u8>)| (e.0, e.1@))
}

/// The strings of a table, by index.
pub open spec fn parsed_strings(b: Seq<u8>) -> Seq<(u32, Seq<u8>)> {
    Seq::new(entry_count_of(b) as nat, |k: int| (k as u32, slot_text(b, k)))
}

proof fn lemma_slot_start_mono(b: Seq<u8>, j: int, k: int)
    requires
        0 <= j <= k,
    ensures
        slot_start(b, j) <= slot_start(b, k),
    decreases k - j,
{
    if j < k {
        lemma_slot_start_mono(b, j, k - 1);
    }
}

fn header_magic_ok(bytes: &[u8]) -> (r: bool)
    requires
        bytes@.len() >= 10,
    ensures
        r == (bytes@.subrange(0, 10) == xistring_magic()),
{
    let r = bytes[0] == 88 && bytes[1] == 73 && bytes[2] == 83 && bytes[3] == 84 && bytes[4] == 82
        && bytes[5] == 73 && bytes[6] == 78 && bytes[7] == 71 && bytes[8] == 0 && bytes[9] == 0;
    proof {
        if r {
            assert(bytes@.subrange(0, 10) =~= xistring_magic());
        }
        if bytes@.subrange(0, 10) == xistring_magic() {
            assert forall|i: int| 0 <= i < 10 implies bytes@[i] == xistring_magic()[i] by {
                assert(bytes@.subrange(0, 10)[i] == bytes@[i]);
            }
        }
    }
    r
}

/// Reads the metadata record of entry `k`.
fn read_meta(bytes: &[u8], k: u32) -> (r: (u32, u16, XiStringMetadata))
    requires
        56 + 12 * k + 12 <= bytes@.len(),
    ensures
        r.0 == meta_offset(bytes@, k as int),
        r.1 == meta_size(bytes@, k as int),
        r.2 == meta_data(bytes@, k as int),
{
    let len = bytes.len();
    let base: usize = 56 + 12 * k as usize;
    let offset = read_u32(bytes, base).unwrap();
    let size = read_u16(bytes, base + 4).unwrap();
    let u1 = read_u16(bytes, base + 6).unwrap();
    let u2 = read_u16(bytes, base + 8).unwrap();
    let u3 = read_u16(bytes, base + 10).unwrap();
    (offset, size, XiStringMetadata { unknown1: u1, unknown2: u2, unknown3: u3 })
}

/// The text of the slot `bytes[start..start + size)`: its bytes before the
/// first zero.
fn read_text(bytes: &[u8], start: usize, size: usize) -> (r: Vec<u8>)
    requires
        start + size <= bytes@.len(),
    ensures
        r@ == bytes@.subrange(start as int, start + size).subrange(
            0,
            text_len(bytes@.subrange(start as int, start + size)),
        ),
{
    let len = bytes.len();
    let n = field_text_len(bytes, start, start + size);
    proof {
        lemma_text_len(bytes@.subrange(start as int, start + size));
    }
    let text = copy_range(bytes, start, start + n);
    assert(text@ =~= bytes@.subrange(start as int, start + size).subrange(0, n as int));
    text
}

/// Whether the header opens as a string table's: magic, version 2, zero
/// padding, the file size, and room for the size fields.
pub open spec fn xistring_prefix_ok(b: Seq<u8>) -> bool {
    &&& b.len() >= 48
    &&& b.subrange(0, 10) == xistring_magic()
    &&& u16_at(b, 10) == 2
    &&& all_zero(b, 12, 32)
    &&& u32_at(b, 32) == b.len()
}

/// Whether the size fields agree: twelve metadata bytes per entry, and the
/// sizes adding up to the file's size.
pub open spec fn xistring_sizes_ok(b: Seq<u8>) -> bool {
    &&& u32_at(b, 40) == u32_at(b, 36) * 12
    &&& b.len() == 56 + u32_at(b, 40) + u32_at(b, 44)
}

/// Why `b` is no string table, checked in the order the header is read.
pub open spec fn xistring_error(b: Seq<u8>) -> DatError {
    if !xistring_prefix_ok(b) {
        DatError::Malformed
    } else if !xistring_sizes_ok(b) {
        DatError::XiStringHeader
    } else if u32_at(b, 48) != 0 {
        DatError::XiStringUnknown1(u32_at(b, 48))
    } else {
        DatError::Malformed
    }
}

/// Checks the header; gives the entry count, the metadata size and the
/// header marker.
fn check_header(bytes: &[u8]) -> (r: Result<(u32, u32, u32), DatError>)
    ensures
        match r {
            Ok((count, meta, marker)) => header_ok(bytes@) && count == u32_at(bytes@, 36)
                && meta == u32_at(bytes@, 40) && marker == u32_at(bytes@, 52),
            Err(e) => !header_ok(bytes@) && e == xistring_error(bytes@),
        },
{
    proof {
        reveal(header_ok);
    }
    if bytes.len() < 48 || !header_magic_ok(bytes) {
        return Err(DatError::Malformed);
    }
    let version = read_u16(bytes, 10).unwrap();
    if version != 2 || !check_zero(bytes, 12, 32) {
        return Err(DatError::Malformed);
    }
    let file_bytes = read_u32(bytes, 32).unwrap();
    if file_bytes as usize != bytes.len() {
        return Err(DatError::Malformed);
    }
    let count = read_u32(bytes, 36).unwrap();
    let meta_bytes = read_u32(bytes, 40).unwrap();
    let data_bytes = read_u32(bytes, 44).unwrap();
    if meta_bytes as u64 != count as u64 * 12 || bytes.len() as u64 != 56 + meta_bytes as u64 + data_bytes as u64 {
        return Err(DatError::XiStringHeader);
    }
    let unknown1 = read_u32(bytes, 48).unwrap();
    if unknown1 != 0 {
        return Err(DatError::XiStringUnknown1(unknown1));
    }
    let header_marker = read_u32(bytes, 52).unwrap();
    Ok((count, meta_bytes, header_marker))
}

/// What the header of a table tells of its sizes.
proof fn lemma_header_sizes(b: Seq<u8>)
    requires
        header_ok(b),
    ensures
        b.len() == 56 + 12 * entry_count_of(b) + u32_at(b, 44),
        u32_at(b, 40) == 12 * entry_count_of(b),
{
    reveal(header_ok);
}

impl XiStringTable {
    pub open spec fn strings_seq(&self) -> Seq<(u32, Seq<u8>)> {
        strings_view(self.strings@)
    }

    /// The strings and the metadata each form a map from index: their
    /// indices increase strictly.
    pub open spec fn well_formed(&self) -> bool {
        &&& forall|a: int, c: int|
            0 <= a < c < self.strings@.len() ==> (#[trigger] self.strings@[a]).0 < (
            #[trigger] self.strings@[c]).0
        &&& forall|a: int, c: int|
            0 <= a < c < self.metadata@.len() ==> (#[trigger] self.metadata@[a]).0 < (
            #[trigger] self.metadata@[c]).0
    }

    /// Whether `bytes` open like a string table: the `XISTRING` magic and
    /// version 2.
    pub fn check_type(bytes: &[u8]) -> (r: bool)
        ensures
            r == (bytes@.len() >= 12 && bytes@.subrange(0, 10) == xistring_magic() && u16_at(bytes@, 10) == 2),
    {
        if bytes.len() < 12 || !header_magic_ok(bytes) {
            return false;
        }
        read_u16(bytes, 10) == Some(2u16)
    }

    /// Reads a string table.
    #[verifier::rlimit(50)]
    pub fn parse(bytes: &[u8]) -> (r: Result<XiStringTable, DatError>)
        ensures
            match r {
                Ok(t) => valid_xistring(bytes@) && t.header_marker == u32_at(bytes@, 52)
                    && t.metadata@ == nonzero_metadata(bytes@, entry_count_of(bytes@))
                    && t.strings_seq() == parsed_strings(bytes@) && t.well_formed(),
                Err(e) => !valid_xistring(bytes@) && e == xistring_error(bytes@),
            },
    {
        let ghost b = bytes@;
        let total = bytes.len();
        let (count, meta_bytes, header_marker) = match check_header(bytes) {
            Ok(h) => h,
            Err(e) => return Err(e),
        };
        proof {
            lemma_header_sizes(b);
        }
        let data_start: usize = 56 + meta_bytes as usize;
        let mut strings: Vec<(u32, Vec<u8>)> = Vec::new();
        let mut metadata: Vec<(u32, XiStringMetadata)> = Vec::new();
        let mut pos: usize = 0;
        let mut k: u32 = 0;
        while k < count
            invariant
                header_ok(b),
                b == bytes@,
                count as int == entry_count_of(b),
                data_start == 56 + 12 * count,
                data_start <= b.len(),
                k <= count,
                pos as int == slot_start(b, k as int),
                data_start + pos <= b.len(),
                forall|q: int| 0 <= q < k ==> #[trigger] slot_ok(b, q),
                strings@.len() == k,
                forall|q: int| 0 <= q < k ==> (#[trigger] strings@[q]).0 == q && strings@[q].1@ == slot_text(b, q),
                metadata@ == nonzero_metadata(b, k as int),
            decreases count - k,
        {
            let (offset, size, m) = read_meta(bytes, k);
            if offset as usize != pos || size as usize > bytes.len() - data_start - pos {
                proof {
                    assert(!slot_ok(b, k as int));
                    reveal(header_ok);
                }
                return Err(DatError::Malformed);
            }
            assert(slot_ok(b, k as int));
            let text = read_text(bytes, data_start + pos, size as usize);
            strings.push((k, text));
            if !(m.unknown1 == 0 && m.unknown2 == 0 && m.unknown3 == 0) {
                metadata.push((k, m));
            }
            pos = pos + size as usize;
            k = k + 1;
        }
        assert(strings_view(strings@) =~= parsed_strings(b));
        proof {
            lemma_nonzero_metadata_keys(b, count as int);
        }
        Ok(XiStringTable { header_marker, metadata, strings })
    }
}

// ---------------------------------------------------------------- writing

/// The largest index of the strings, or zero.
pub open spec fn max_key(s: Seq<(u32, Seq<u8>)>) -> u32
    decreases s.len(),
{
    if s.len() == 0 {
        0
    } else {
        let m = max_key(s.drop_last());
        if s.last().0 > m {
            s.last().0
        } else {
            m
        }
    }
}

/// The string at index `k`: that of the last entry for it, or empty.
pub open spec fn string_of(s: Seq<(u32, Seq<u8>)>, k: int) -> Seq<u8>
    decreases s.len(),
{
    if s.len() == 0 {
        Seq::empty()
    } else if s.last().0 == k {
        s.last().1
    } else {
        string_of(s.drop_last(), k)
    }
}

/// The metadata of index `k`: that of the last entry for it, or zeros.
pub open spec fn meta_of(m: Seq<(u32, XiStringMetadata)>, k: int) -> XiStringMetadata
    decreases m.len(),
{
    if m.len() == 0 {
        zero_metadata()
    } else if m.last().0 == k {
        m.last().1
    } else {
        meta_of(m.drop_last(), k)
    }
}

/// Number of entries written: one past the largest index (one for an empty
/// table).
pub open spec fn written_count(s: Seq<(u32, Seq<u8>)>) -> int {
    max_key(s) + 1
}

/// Size of slot `k`: the string and its terminating zero.
pub open spec fn slot_len(s: Seq<(u32, Seq<u8>)>, k: int) -> int {
    string_of(s, k).len() as int + 1
}

/// Where slot `k` starts within the string data.
pub open spec fn written_offset(s: Seq<(u32, Seq<u8>)>, k: int) -> int
    decreases k,
{
    if k <= 0 {
        0
    } else {
        written_offset(s, k - 1) + slot_len(s, k - 1)
    }
}

/// The metadata record of slot `k`: its offset, its size (which wraps at
/// 65536), and its three numbers.
pub open spec fn meta_record(s: Seq<(u32, Seq<u8>)>, m: Seq<(u32, XiStringMetadata)>, k: int) -> Seq<u8> {
    let md = meta_of(m, k);
    u32_bytes(written_offset(s, k) as u32) + u16_bytes((slot_len(s, k) % 65536) as u16) + u16_bytes(
        md.unknown1,
    ) + u16_bytes(md.unknown2) + u16_bytes(md.unknown3)
}

pub open spec fn meta_records(s: Seq<(u32, Seq<u8>)>, m: Seq<(u32, XiStringMetadata)>, n: int) -> Seq<u8>
    decreases n,
{
    if n <= 0 {
        Seq::empty()
    } else {
        meta_records(s, m, n - 1) + meta_record(s, m, n - 1)
    }
}

pub open spec fn data_records(s: Seq<(u32, Seq<u8>)>, n: int) -> Seq<u8>
    decreases n,
{
    if n <= 0 {
        Seq::empty()
    } else {
        data_records(s, n - 1) + string_of(s, n - 1) + seq![0u8]
    }
}

/// Whether the table can be written: its largest index leaves room for the
/// count and its size fits in the header's 32-bit fields.
pub open spec fn table_writable(s: Seq<(u32, Seq<u8>)>) -> bool {
    &&& max_key(s) < u32::MAX
    &&& 56 + 12 * written_count(s) + written_offset(s, written_count(s)) <= u32::MAX
}

/// The bytes of a table.
pub open spec fn table_bytes(marker: u32, s: Seq<(u32, Seq<u8>)>, m: Seq<(u32, XiStringMetadata)>) -> Seq<u8> {
    let count = written_count(s);
    let data = written_offset(s, count);
    xistring_magic() + u16_bytes(2) + zeros(20) + u32_bytes((56 + 12 * count + data) as u32)
        + u32_bytes(count as u32) + u32_bytes((12 * count) as u32) + u32_bytes(data as u32)
        + u32_bytes(0) + u32_bytes(marker) + meta_records(s, m, count) + data_records(s, count)
}

proof fn lemma_written_offset_mono(s: Seq<(u32, Seq<u8>)>, j: int, k: int)
    requires
        0 <= j <= k,
    ensures
        written_offset(s, j) <= written_offset(s, k),
        written_offset(s, k) >= k,
    decreases k,
{
    if k > 0 {
        if j < k {
            lemma_written_offset_mono(s, j, k - 1);
        } else {
            lemma_written_offset_mono(s, j - 1, k - 1);
        }
    }
}

fn find_string<'a>(strings: &'a Vec<(u32, Vec<u8>)>, k: u32) -> (r: Option<&'a Vec<u8>>)
    ensures
        match r {
            Some(v) => v@ == string_of(strings_view(strings@), k as int),
            None => string_of(strings_view(strings@), k as int) == Seq::<u8>::empty(),
        },
{
    let mut i = strings.len();
    assert(strings_view(strings@).subrange(0, i as int) =~= strings_view(strings@));
    while i > 0
        invariant
            i <= strings@.len(),
            string_of(strings_view(strings@), k as int) == string_of(
                strings_view(strings@).subrange(0, i as int),
                k as int,
            ),
        decreases i,
    {
        assert(strings_view(strings@).subrange(0, i as int).drop_last() =~= strings_view(
            strings@,
        ).subrange(0, i - 1));
        if strings[i - 1].0 == k {
            return Some(&strings[i - 1].1);
        }
        i = i - 1;
    }
    None
}

fn find_metadata(metadata: &Vec<(u32, XiStringMetadata)>, k: u32) -> (r: XiStringMetadata)
    ensures
        r == meta_of(metadata@, k as int),
{
    let mut i = metadata.len();
    assert(metadata@.subrange(0, i as int) =~= metadata@);
    while i > 0
        invariant
            i <= metadata@.len(),
            meta_of(metadata@, k as int) == meta_of(metadata@.subrange(0, i as int), k as int),
        decreases i,
    {
        assert(metadata@.subrange(0, i as int).drop_last() =~= metadata@.subrange(0, i - 1));
        if metadata[i - 1].0 == k {
            return metadata[i - 1].1;
        }
        i = i - 1;
    }
    XiStringMetadata { unknown1: 0, unknown2: 0, unknown3: 0 }
}

impl XiStringTable {
    /// Writes the table: every index up to the largest gets a slot, an
    /// absent string an empty one; a table whose size does not fit the
    /// header cannot be written.
    pub fn write(&self) -> (r: Result<Vec<u8>, DatError>)
        ensures
            match r {
                Ok(out) => table_writable(self.strings_seq()) && out@ == table_bytes(
                    self.header_marker,
                    self.strings_seq(),
                    self.metadata@,
                ),
                Err(e) => !table_writable(self.strings_seq()) && e == DatError::Unwritable,
            },
    {
        let ghost s = self.strings_seq();
        let ghost m = self.metadata@;
        // The largest index.
        let mut max: u32 = 0;
        let mut i: usize = 0;
        while i < self.strings.len()
            invariant
                i <= self.strings@.len(),
                s == self.strings_seq(),
                max == max_key(s.subrange(0, i as int)),
            decreases self.strings@.len() - i,
        {
            assert(s.subrange(0, i + 1).drop_last() =~= s.subrange(0, i as int));
            if self.strings[i].0 > max {
                max = self.strings[i].0;
            }
            i = i + 1;
        }
        assert(s.subrange(0, s.len() as int) =~= s);
        if max == u32::MAX {
            return Err(DatError::Unwritable);
        }
        let count: u32 = max + 1;
        // The size of the string data.
        let mut data: u64 = 0;
        let mut k: u32 = 0;
        while k < count
            invariant
                s == self.strings_seq(),
                count == written_count(s),
                k <= count,
                data == written_offset(s, k as int),
                data <= 0xffff_ffff,
            decreases count - k,
        {
            let len: u64 = match find_string(&self.strings, k) {
                Some(v) => v.len() as u64,
                None => 0,
            };
            if len >= 0xffff_ffff - data {
                proof {
                    lemma_written_offset_mono(s, k + 1, count as int);
                }
                return Err(DatError::Unwritable);
            }
            data = data + len + 1;
            k = k + 1;
        }
        if 56 + 12 * count as u64 + data > 0xffff_ffff {
            return Err(DatError::Unwritable);
        }
        assert(table_writable(s));
        let data32 = data as u32;
        let mut out: Vec<u8> = Vec::new();
        out.push(88u8);
        out.push(73u8);
        out.push(83u8);
        out.push(84u8);
        out.push(82u8);
        out.push(73u8);
        out.push(78u8);
        out.push(71u8);
        out.push(0u8);
        out.push(0u8);
        push_u16(&mut out, 2);
        push_zeros(&mut out, 20);
        push_u32(&mut out, 56 + 12 * count + data32);
        push_u32(&mut out, count);
        push_u32(&mut out, 12 * count);
        push_u32(&mut out, data32);
        push_u32(&mut out, 0);
        push_u32(&mut out, self.header_marker);
        let ghost header = out@;
        assert(header =~= xistring_magic() + u16_bytes(2) + zeros(20) + u32_bytes(
            (56 + 12 * count + data) as u32,
        ) + u32_bytes(count as u32) + u32_bytes((12 * count) as u32) + u32_bytes(data as u32)
            + u32_bytes(0) + u32_bytes(self.header_marker));
        // The metadata records.
        let mut offset: u32 = 0;
        let mut k: u32 = 0;
        while k < count
            invariant
                s == self.strings_seq(),
                m == self.metadata@,
                count == written_count(s),
                table_writable(s),
                k <= count,
                offset == written_offset(s, k as int),
                out@ == header + meta_records(s, m, k as int),
            decreases count - k,
        {
            proof {
                lemma_written_offset_mono(s, k + 1, count as int);
            }
            let len: u32 = match find_string(&self.strings, k) {
                Some(v) => v.len() as u32,
                None => 0,
            };
            let slot: u32 = len + 1;
            let md = find_metadata(&self.metadata, k);
            push_u32(&mut out, offset);
            push_u16(&mut out, (slot % 65536) as u16);
            push_u16(&mut out, md.unknown1);
            push_u16(&mut out, md.unknown2);
            push_u16(&mut out, md.unknown3);
            assert(out@ =~= header + meta_records(s, m, k + 1));
            offset = offset + slot;
            k = k + 1;
        }
        let ghost with_meta = out@;
        // The strings, each followed by a zero byte.
        let mut k: u32 = 0;
        while k < count
            invariant
                s == self.strings_seq(),
                count == written_count(s),
                k <= count,
                out@ == with_meta + data_records(s, k as int),
            decreases count - k,
        {
            match find_string(&self.strings, k) {
                Some(v) => push_bytes(&mut out, v.as_slice()),
                None => {},
            }
            out.push(0u8);
            assert(out@ =~= with_meta + data_records(s, k + 1));
            k = k + 1;
        }
        Ok(out)
    }
}

} // verus!

verus! {

// ---------------------------------------------------------------- round trip

/// Whether the strings are numbered from zero, in order, and each fits its
/// slot with no zero byte inside.
pub open spec fn canonical_strings(s: Seq<(u32, Seq<u8>)>) -> bool {
    &&& s.len() >= 1
    &&& forall|k: int| 0 <= k < s.len() ==> (#[trigger] s[k]).0 == k
    &&& forall|k: int| 0 <= k < s.len() ==> (#[trigger] s[k]).1.len() < 65535
    &&& forall|k: int, i: int| 0 <= k < s.len() && 0 <= i < s[k].1.len() ==> #[trigger] s[k].1[i] != 0
}

/// Whether the metadata entries have increasing indexes below `n`, none of
/// them all zero.
pub open spec fn canonical_metadata(m: Seq<(u32, XiStringMetadata)>, n: int) -> bool {
    &&& forall|a: int, b: int| 0 <= a < b < m.len() ==> (#[trigger] m[a]).0 < (#[trigger] m[b]).0
    &&& forall|i: int| 0 <= i < m.len() ==> (#[trigger] m[i]).0 < n && m[i].1 != zero_metadata()
}

proof fn lemma_dense_lookup(s: Seq<(u32, Seq<u8>)>, k: int)
    requires
        forall|q: int| 0 <= q < s.len() ==> (#[trigger] s[q]).0 == q,
        0 <= k < s.len(),
    ensures
        string_of(s, k) == s[k].1,
    decreases s.len(),
{
    if k < s.len() - 1 {
        let t = s.drop_last();
        assert forall|q: int| 0 <= q < t.len() implies (#[trigger] t[q]).0 == q by {
            assert(t[q] == s[q]);
        }
        lemma_dense_lookup(t, k);
        assert(t[k] == s[k]);
    }
}

proof fn lemma_dense_max(s: Seq<(u32, Seq<u8>)>)
    requires
        forall|q: int| 0 <= q < s.len() ==> (#[trigger] s[q]).0 == q,
        s.len() >= 1,
    ensures
        max_key(s) == s.len() - 1,
    decreases s.len(),
{
    let last = s[s.len() - 1];
    assert(last.0 == s.len() - 1);
    assert(s.last() == last);
    if s.len() > 1 {
        let t = s.drop_last();
        assert forall|q: int| 0 <= q < t.len() implies (#[trigger] t[q]).0 == q by {
            assert(t[q] == s[q]);
        }
        lemma_dense_max(t);
    } else {
        assert(s.drop_last().len() == 0);
        assert(max_key(s.drop_last()) == 0);
    }
}

/// Number of metadata entries with an index below `k`.
pub open spec fn entries_below(m: Seq<(u32, XiStringMetadata)>, k: int) -> int
    decreases m.len(),
{
    if m.len() == 0 {
        0
    } else if m.last().0 < k {
        m.len() as int
    } else {
        entries_below(m.drop_last(), k)
    }
}

proof fn lemma_sorted_drop_last(m: Seq<(u32, XiStringMetadata)>, n: int)
    requires
        canonical_metadata(m, n),
        m.len() > 0,
    ensures
        canonical_metadata(m.drop_last(), n),
{
    let t = m.drop_last();
    assert forall|a: int, b: int| 0 <= a < b < t.len() implies (#[trigger] t[a]).0 < (#[trigger] t[b]).0 by {
        assert(t[a] == m[a] && t[b] == m[b]);
    }
    assert forall|i: int| 0 <= i < t.len() implies (#[trigger] t[i]).0 < n && t[i].1 != zero_metadata() by {
        assert(t[i] == m[i]);
    }
}

proof fn lemma_entries_below(m: Seq<(u32, XiStringMetadata)>, n: int, k: int)
    requires
        canonical_metadata(m, n),
    ensures
        0 <= entries_below(m, k) <= m.len(),
        forall|i: int| 0 <= i < entries_below(m, k) ==> (#[trigger] m[i]).0 < k,
        forall|i: int| entries_below(m, k) <= i < m.len() ==> (#[trigger] m[i]).0 >= k,
    decreases m.len(),
{
    if m.len() > 0 {
        lemma_sorted_drop_last(m, n);
        lemma_entries_below(m.drop_last(), n, k);
        let t = m.drop_last();
        if m.last().0 < k {
            assert forall|i: int| 0 <= i < entries_below(m, k) implies (#[trigger] m[i]).0 < k by {
                if i < m.len() - 1 {
                    assert(m[i].0 < m[m.len() - 1].0);
                }
            }
        } else {
            assert forall|i: int| entries_below(m, k) <= i < m.len() implies (#[trigger] m[i]).0 >= k by {
                if i < m.len() - 1 {
                    assert(t[i] == m[i]);
                }
            }
            assert forall|i: int| 0 <= i < entries_below(m, k) implies (#[trigger] m[i]).0 < k by {
                assert(t[i] == m[i]);
            }
        }
    }
}

proof fn lemma_meta_of_sorted(m: Seq<(u32, XiStringMetadata)>, n: int, k: int)
    requires
        canonical_metadata(m, n),
    ensures
        (exists|i: int| 0 <= i < m.len() && (#[trigger] m[i]).0 == k) ==> meta_of(m, k) == m[entries_below(m, k)].1
            && m[entries_below(m, k)].0 == k,
        !(exists|i: int| 0 <= i < m.len() && (#[trigger] m[i]).0 == k) ==> meta_of(m, k) == zero_metadata(),
    decreases m.len(),
{
    if m.len() > 0 {
        lemma_sorted_drop_last(m, n);
        lemma_meta_of_sorted(m.drop_last(), n, k);
        lemma_entries_below(m, n, k);
        let t = m.drop_last();
        if exists|i: int| 0 <= i < t.len() && (#[trigger] t[i]).0 == k {
            let i = choose|i: int| 0 <= i < t.len() && (#[trigger] t[i]).0 == k;
            assert(m[i] == t[i]);
            assert(m[i].0 < m[m.len() - 1].0);
            lemma_entries_below(t, n, k);
        } else {
            if exists|i: int| 0 <= i < m.len() && (#[trigger] m[i]).0 == k {
                let i = choose|i: int| 0 <= i < m.len() && (#[trigger] m[i]).0 == k;
                if i < m.len() - 1 {
                    assert(t[i] == m[i]);
                }
                assert(i == m.len() - 1);
            }
        }
    }
}

proof fn lemma_meta_records_shape(s: Seq<(u32, Seq<u8>)>, m: Seq<(u32, XiStringMetadata)>, k: int)
    requires
        0 <= k,
    ensures
        meta_records(s, m, k).len() == 12 * k,
        forall|j: int| 0 <= j < k ==> #[trigger] meta_records(s, m, k).subrange(12 * j, 12 * j + 12) == meta_record(s, m, j),
    decreases k,
{
    if k > 0 {
        lemma_meta_records_shape(s, m, k - 1);
        assert forall|j: int| 0 <= j < k implies #[trigger] meta_records(s, m, k).subrange(12 * j, 12 * j + 12)
            == meta_record(s, m, j) by {
            if j < k - 1 {
                assert(meta_records(s, m, k).subrange(12 * j, 12 * j + 12) =~= meta_records(s, m, k - 1).subrange(12 * j, 12 * j + 12));
            } else {
                assert(meta_records(s, m, k).subrange(12 * j, 12 * j + 12) =~= meta_record(s, m, j));
            }
        }
    }
}

proof fn lemma_data_records_shape(s: Seq<(u32, Seq<u8>)>, k: int)
    requires
        0 <= k,
    ensures
        data_records(s, k).len() == written_offset(s, k),
        forall|j: int| 0 <= j < k ==> #[trigger] data_records(s, k).subrange(written_offset(s, j), written_offset(s, j + 1))
            == string_of(s, j) + seq![0u8],
    decreases k,
{
    if k > 0 {
        lemma_data_records_shape(s, k - 1);
        assert forall|j: int| 0 <= j < k implies #[trigger] data_records(s, k).subrange(written_offset(s, j), written_offset(s, j + 1))
            == string_of(s, j) + seq![0u8] by {
            lemma_written_offset_mono(s, j, j + 1);
            lemma_written_offset_mono(s, 0, j);
            if j < k - 1 {
                lemma_written_offset_mono(s, j + 1, k - 1);
                assert(data_records(s, k).subrange(written_offset(s, j), written_offset(s, j + 1)) =~= data_records(s, k - 1).subrange(written_offset(s, j), written_offset(s, j + 1)));
            } else {
                assert(data_records(s, k).subrange(written_offset(s, j), written_offset(s, j + 1)) =~= string_of(s, j) + seq![0u8]);
            }
        }
    }
}

#[verifier::spinoff_prover]
#[verifier::rlimit(40)]
proof fn lemma_table_layout(marker: u32, s: Seq<(u32, Seq<u8>)>, m: Seq<(u32, XiStringMetadata)>)
    requires
        canonical_strings(s),
        table_writable(s),
    ensures
        written_count(s) == s.len(),
        table_bytes(marker, s, m).len() == 56 + 12 * s.len() + written_offset(s, s.len() as int),
        table_bytes(marker, s, m).subrange(56, 56 + 12 * s.len() as int) == meta_records(s, m, s.len() as int),
        table_bytes(marker, s, m).subrange(56 + 12 * s.len() as int, table_bytes(marker, s, m).len() as int)
            == data_records(s, s.len() as int),
        header_ok(table_bytes(marker, s, m)),
        entry_count_of(table_bytes(marker, s, m)) == s.len(),
        u32_at(table_bytes(marker, s, m), 52) == marker,
{
    let b = table_bytes(marker, s, m);
    let n = s.len() as int;
    lemma_dense_max(s);
    let data = written_offset(s, n);
    lemma_written_offset_mono(s, 0, n);
    lemma_meta_records_shape(s, m, n);
    lemma_data_records_shape(s, n);
    let head = xistring_magic() + u16_bytes(2) + zeros(20) + u32_bytes((56 + 12 * n + data) as u32)
        + u32_bytes(n as u32) + u32_bytes((12 * n) as u32) + u32_bytes(data as u32) + u32_bytes(0)
        + u32_bytes(marker);
    let metas = meta_records(s, m, n);
    let datas = data_records(s, n);
    assert(b =~= head + metas + datas);
    assert(b.subrange(56, 56 + 12 * n) =~= metas);
    assert(b.subrange(56 + 12 * n, b.len() as int) =~= datas);
    assert(b.subrange(0, 10) =~= xistring_magic());
    assert(b.subrange(10, 12) =~= u16_bytes(2));
    crate::bytes::lemma_u16_at_placed(b, 10, 2);
    assert(all_zero(b, 12, 32));
    assert(b.subrange(32, 36) =~= u32_bytes((56 + 12 * n + data) as u32));
    crate::bytes::lemma_u32_at_placed(b, 32, (56 + 12 * n + data) as u32);
    assert(b.subrange(36, 40) =~= u32_bytes(n as u32));
    crate::bytes::lemma_u32_at_placed(b, 36, n as u32);
    assert(b.subrange(40, 44) =~= u32_bytes((12 * n) as u32));
    crate::bytes::lemma_u32_at_placed(b, 40, (12 * n) as u32);
    assert(b.subrange(44, 48) =~= u32_bytes(data as u32));
    crate::bytes::lemma_u32_at_placed(b, 44, data as u32);
    assert(b.subrange(48, 52) =~= u32_bytes(0));
    crate::bytes::lemma_u32_at_placed(b, 48, 0);
    assert(b.subrange(52, 56) =~= u32_bytes(marker));
    crate::bytes::lemma_u32_at_placed(b, 52, marker);
    assert(header_ok(b)) by {
        reveal(header_ok);
    }
}

proof fn lemma_table_record(b: Seq<u8>, s: Seq<(u32, Seq<u8>)>, m: Seq<(u32, XiStringMetadata)>, k: int)
    requires
        canonical_strings(s),
        table_writable(s),
        0 <= k < s.len(),
        b.len() >= 56 + 12 * s.len(),
        b.subrange(56, 56 + 12 * s.len() as int) == meta_records(s, m, s.len() as int),
    ensures
        meta_size(b, k) as int == slot_len(s, k),
        meta_offset(b, k) == written_offset(s, k),
        meta_data(b, k) == meta_of(m, k),
{
    let n = s.len() as int;
    lemma_dense_max(s);
    lemma_meta_records_shape(s, m, n);
    let metas = meta_records(s, m, n);
    let rec = meta_record(s, m, k);
    let md = meta_of(m, k);
    assert(metas.subrange(12 * k, 12 * k + 12) == rec);
    let r = b.subrange(56 + 12 * k, 68 + 12 * k);
    assert(r =~= metas.subrange(12 * k, 12 * k + 12));
    lemma_written_offset_mono(s, k, n);
    lemma_written_offset_mono(s, k + 1, n);
    lemma_dense_lookup(s, k);
    lemma_written_offset_mono(s, 0, k);
    assert(written_count(s) == n);
    assert(written_offset(s, k) <= written_offset(s, n));
    assert(written_offset(s, k) <= u32::MAX);
    assert(b.subrange(56 + 12 * k, 60 + 12 * k) =~= r.subrange(0, 4));
    assert(r.subrange(0, 4) =~= u32_bytes(written_offset(s, k) as u32));
    crate::bytes::lemma_u32_at_placed(b, 56 + 12 * k, written_offset(s, k) as u32);
    assert(b.subrange(60 + 12 * k, 62 + 12 * k) =~= r.subrange(4, 6));
    assert(r.subrange(4, 6) =~= u16_bytes((slot_len(s, k) % 65536) as u16));
    crate::bytes::lemma_u16_at_placed(b, 60 + 12 * k, (slot_len(s, k) % 65536) as u16);
    assert(b.subrange(62 + 12 * k, 64 + 12 * k) =~= r.subrange(6, 8));
    assert(r.subrange(6, 8) =~= u16_bytes(md.unknown1));
    crate::bytes::lemma_u16_at_placed(b, 62 + 12 * k, md.unknown1);
    assert(b.subrange(64 + 12 * k, 66 + 12 * k) =~= r.subrange(8, 10));
    assert(r.subrange(8, 10) =~= u16_bytes(md.unknown2));
    crate::bytes::lemma_u16_at_placed(b, 64 + 12 * k, md.unknown2);
    assert(b.subrange(66 + 12 * k, 68 + 12 * k) =~= r.subrange(10, 12));
    assert(r.subrange(10, 12) =~= u16_bytes(md.unknown3));
    crate::bytes::lemma_u16_at_placed(b, 66 + 12 * k, md.unknown3);
}

proof fn lemma_table_slot(b: Seq<u8>, s: Seq<(u32, Seq<u8>)>, k: int)
    requires
        canonical_strings(s),
        table_writable(s),
        0 <= k < s.len(),
        entry_count_of(b) == s.len(),
        b.len() == 56 + 12 * s.len() + written_offset(s, s.len() as int),
        b.subrange(56 + 12 * s.len() as int, b.len() as int) == data_records(s, s.len() as int),
        meta_size(b, k) as int == slot_len(s, k),
        meta_offset(b, k) == written_offset(s, k),
        slot_start(b, k) == written_offset(s, k),
    ensures
        slot_ok(b, k),
        slot_text(b, k) == s[k].1,
{
    let n = s.len() as int;
    lemma_data_records_shape(s, n);
    lemma_written_offset_mono(s, k + 1, n);
    lemma_written_offset_mono(s, k, k + 1);
    lemma_dense_lookup(s, k);
    let datas = data_records(s, n);
    let lo = written_offset(s, k);
    let hi = written_offset(s, k + 1);
    assert(datas.subrange(lo, hi) == string_of(s, k) + seq![0u8]);
    let p = 56 + 12 * n + lo;
    assert(b.subrange(p, p + meta_size(b, k)) =~= datas.subrange(lo, hi));
    let field = s[k].1 + seq![0u8];
    crate::formats::entity_names::lemma_text_len_of(field, s[k].1.len() as int);
    assert(field.subrange(0, s[k].1.len() as int) =~= s[k].1);
}

/// Reading a written table gives back its header marker, its strings and
/// its metadata, when the strings are numbered from zero in order, hold no
/// zero byte and fit their slots, the metadata is sorted by index, not all
/// zero and for existing strings, and the table fits the format.
pub proof fn lemma_xistring_round_trip(marker: u32, s: Seq<(u32, Seq<u8>)>, m: Seq<(u32, XiStringMetadata)>)
    requires
        canonical_strings(s),
        canonical_metadata(m, s.len() as int),
        table_writable(s),
    ensures
        valid_xistring(table_bytes(marker, s, m)),
        u32_at(table_bytes(marker, s, m), 52) == marker,
        parsed_strings(table_bytes(marker, s, m)) == s,
        nonzero_metadata(table_bytes(marker, s, m), s.len() as int) == m,
{
    let b = table_bytes(marker, s, m);
    let n = s.len() as int;
    lemma_table_layout(marker, s, m);
    lemma_written_offset_mono(s, 0, n);
    assert forall|j: int| 0 <= j < n implies #[trigger] meta_size(b, j) as int == slot_len(s, j) by {
        lemma_table_record(b, s, m, j);
    }
    assert forall|j: int| 0 <= j < n implies #[trigger] meta_data(b, j) == meta_of(m, j) by {
        lemma_table_record(b, s, m, j);
    }
    assert forall|k: int| 0 <= k < n implies #[trigger] slot_ok(b, k) && slot_text(b, k) == s[k].1 by {
        lemma_slot_starts(b, s, k, n);
        lemma_table_record(b, s, m, k);
        lemma_table_slot(b, s, k);
    }
    assert forall|k: int| 0 <= k < n implies #[trigger] slot_text(b, k) == s[k].1 by {
        assert(slot_ok(b, k));
    }
    assert(valid_xistring(b));
    assert(parsed_strings(b) =~= s);
    lemma_nonzero_metadata(b, s, m, n, n);
    lemma_entries_below(m, n, n);
    assert(m.subrange(0, entries_below(m, n)) =~= m);
}

proof fn lemma_slot_starts(b: Seq<u8>, s: Seq<(u32, Seq<u8>)>, k: int, n: int)
    requires
        0 <= k <= n,
        forall|j: int| 0 <= j < n ==> #[trigger] meta_size(b, j) as int == slot_len(s, j),
    ensures
        slot_start(b, k) == written_offset(s, k),
    decreases k,
{
    if k > 0 {
        lemma_slot_starts(b, s, k - 1, n);
        assert(meta_size(b, k - 1) as int == slot_len(s, k - 1));
    }
}

proof fn lemma_nonzero_metadata(b: Seq<u8>, s: Seq<(u32, Seq<u8>)>, m: Seq<(u32, XiStringMetadata)>, n: int, k: int)
    requires
        0 <= k <= n,
        canonical_metadata(m, n),
        forall|j: int| 0 <= j < n ==> #[trigger] meta_data(b, j) == meta_of(m, j),
    ensures
        nonzero_metadata(b, k) == m.subrange(0, entries_below(m, k)),
    decreases k,
{
    lemma_entries_below(m, n, k);
    if k == 0 {
        assert(m.subrange(0, entries_below(m, 0)) =~= Seq::<(u32, XiStringMetadata)>::empty()) by {
            if entries_below(m, 0) > 0 {
                assert(m[0].0 < 0);
            }
        }
    } else {
        lemma_nonzero_metadata(b, s, m, n, k - 1);
        lemma_entries_below(m, n, k - 1);
        lemma_meta_of_sorted(m, n, k - 1);
        assert(meta_data(b, k - 1) == meta_of(m, k - 1));
        let c = entries_below(m, k - 1);
        let d = entries_below(m, k);
        if exists|i: int| 0 <= i < m.len() && (#[trigger] m[i]).0 == k - 1 {
            assert(m[c].0 == k - 1);
            assert(d == c + 1) by {
                if d > c + 1 {
                    assert(m[c + 1].0 < k);
                    assert(m[c].0 < m[c + 1].0);
                }
                if d <= c {
                    assert(m[c].0 >= k);
                }
            }
            assert(m[c].1 != zero_metadata());
            assert(m.subrange(0, d) =~= m.subrange(0, c).push(m[c]));
        } else {
            assert(meta_of(m, k - 1) == zero_metadata());
            assert(d == c) by {
                if d > c {
                    assert(m[c].0 < k && m[c].0 >= k - 1);
                }
                if d < c {
                    assert(m[d].0 < k - 1 && m[d].0 >= k);
                }
            }
        }
    }
}

} // verus!
