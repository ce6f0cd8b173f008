use vstd::prelude::*;
use crate::bytes::{get_padding, push_u32, read_u32, spec_padding, u32_at, u32_bytes};
use crate::error::DatError;

verus! {

/// Mask of the header words.
pub const DIALOG_MASK: u32 = 0x80808080;

/// Mask of the string bytes.
pub const DIALOG_U8_MASK: u8 = 0x80;

/// The dialog lines of a zone, by index, each as its encoded text.
#[derive(Debug, PartialEq, Eq)]
pub struct Dialog {
    pub entries: Vec<(u32, Vec<u8>)>,
}

pub open spec fn entries_view(e: Seq<(u32, Vec<u8>)>) -> Seq<(u32, Seq<u8>)> {
    e.map_values(|x: (u32, Vec<u8>)| (x.0, x.1@))
}

/// `s` with every byte masked.
pub open spec fn masked(s: Seq<u8>) -> Seq<u8> {
    s.map_values(|b: u8| b ^ 0x80u8)
}

/// `s` without its trailing zero bytes.
pub open spec fn trim_zeros(s: Seq<u8>) -> Seq<u8>
    decreases s.len(),
{
    if s.len() > 0 && s.last() == 0 {
        trim_zeros(s.drop_last())
    } else {
        s
    }
}

// ---------------------------------------------------------------- reading

/// The size the header declares.
pub open spec fn declared_size(b: Seq<u8>) -> int {
    (u32_at(b, 0) ^ 0x10000000u32) + 4
}

/// The byte count of the table of string ends, as the header declares it.
pub open spec fn shifted_count(b: Seq<u8>) -> u32 {
    u32_at(b, 4) ^ 0x80808080u32
}

/// Where string `k` ends (where string `k + 1` starts); the last one ends
/// at the end of the file.
pub open spec fn string_end(b: Seq<u8>, k: int) -> int {
    if k + 1 < shifted_count(b) / 4 {
        (u32_at(b, 8 + 4 * k) ^ 0x80808080u32) + 4
    } else {
        b.len() as int
    }
}

/// Where string `k` starts: after the header and the table of ends for the
/// first, and where the one before ended for the others.
pub open spec fn string_start(b: Seq<u8>, k: int) -> int {
    if k <= 0 {
        4 + shifted_count(b)
    } else {
        string_end(b, k - 1)
    }
}

/// Whether the header is consistent: a non-zero size word that declares the
/// file's size, and a table of ends that holds at least one string, is whole,
/// and fits in the file.
pub open spec fn dialog_header_ok(b: Seq<u8>) -> bool {
    &&& b.len() >= 8
    &&& u32_at(b, 0) != 0
    &&& declared_size(b) == b.len()
    &&& shifted_count(b) % 4 == 0
    &&& 4 <= shifted_count(b)
    &&& 4 + shifted_count(b) <= b.len()
}

/// Whether every string starts no later than it ends.
pub open spec fn strings_ordered(b: Seq<u8>) -> bool {
    forall|k: int|
        0 <= k < shifted_count(b) / 4 ==> #[trigger] string_start(b, k) <= string_end(b, k) <= b.len()
}

/// Whether `b` is a dialog DAT: the four-byte empty marker, or a consistent
/// header with its strings in order.
pub open spec fn valid_dialog(b: Seq<u8>) -> bool {
    if b.len() == 4 {
        u32_at(b, 0) == 0
    } else {
        dialog_header_ok(b) && strings_ordered(b)
    }
}

/// Why `b` is no dialog DAT, checked in the order the header is read: the
/// empty marker of a four-byte file, a zero size word, a size that is not
/// the byte count, a file too short for a header, a bad table of string
/// ends, and last strings out of order.
pub open spec fn dialog_error(b: Seq<u8>) -> DatError {
    if b.len() == 4 {
        DatError::DialogEmptyMarker(u32_at(b, 0))
    } else if b.len() < 4 {
        DatError::Malformed
    } else if u32_at(b, 0) == 0 {
        DatError::DialogEmpty
    } else if declared_size(b) != b.len() {
        DatError::DialogFileSize(declared_size(b) as u64, b.len() as usize)
    } else if b.len() < 8 {
        DatError::Malformed
    } else if !(shifted_count(b) % 4 == 0 && 4 <= shifted_count(b) && 4 + shifted_count(b) <= b.len()) {
        DatError::DialogStringCount(shifted_count(b), b.len() as usize)
    } else {
        DatError::Malformed
    }
}

/// The lines of a dialog DAT: each string unmasked, trailing zeros dropped.
pub open spec fn parsed_dialog(b: Seq<u8>) -> Seq<(u32, Seq<u8>)> {
    if b.len() == 4 {
        Seq::empty()
    } else {
        Seq::new(
            (shifted_count(b) / 4) as nat,
            |k: int| (k as u32, trim_zeros(masked(b.subrange(string_start(b, k), string_end(b, k))))),
        )
    }
}

/// The unmasked bytes of `bytes[start..end)` without trailing zeros.
fn read_line(bytes: &[u8], start: usize, end: usize) -> (r: Vec<u8>)
    requires
        start <= end <= bytes@.len(),
    ensures
        r@ == trim_zeros(masked(bytes@.subrange(start as int, end as int))),
{
    let ghost field = masked(bytes@.subrange(start as int, end as int));
    let mut stop = end;
    assert(field.subrange(0, end - start) =~= field);
    while stop > start && bytes[stop - 1] ^ 0x80u8 == 0
        invariant
            start <= stop <= end <= bytes@.len(),
            field == masked(bytes@.subrange(start as int, end as int)),
            trim_zeros(field) == trim_zeros(field.subrange(0, stop - start)),
        decreases stop,
    {
        let ghost cur = field.subrange(0, stop - start);
        assert(cur.last() == bytes@[stop - 1] ^ 0x80u8);
        assert(cur.drop_last() =~= field.subrange(0, stop - 1 - start));
        stop = stop - 1;
    }
    let mut r: Vec<u8> = Vec::new();
    let mut i = start;
    while i < stop
        invariant
            start <= i <= stop <= end <= bytes@.len(),
            r@ == field.subrange(0, i - start),
            field == masked(bytes@.subrange(start as int, end as int)),
        decreases stop - i,
    {
        r.push(bytes[i] ^ 0x80u8);
        assert(r@ =~= field.subrange(0, i + 1 - start));
        i = i + 1;
    }
    proof {
        let cur = field.subrange(0, stop - start);
        if stop > start {
            assert(cur.last() == bytes@[stop - 1] ^ 0x80u8);
        }
        assert(trim_zeros(cur) == cur);
    }
    r
}

impl Dialog {
    /// Whether `bytes` hold a dialog DAT: whether it reads.
    pub fn check_type(bytes: &[u8]) -> (r: bool)
        ensures
            r == valid_dialog(bytes@),
    {
        Dialog::parse(bytes).is_ok()
    }

    pub open spec fn entries_seq(&self) -> Seq<(u32, Seq<u8>)> {
        entries_view(self.entries@)
    }

    /// The lines form a map from line ID: their IDs increase strictly.
    pub open spec fn well_formed(&self) -> bool {
        forall|a: int, b: int| 0 <= a < b < self.entries@.len() ==> (#[trigger] self.entries@[a]).0 < (
        #[trigger] self.entries@[b]).0
    }

    /// Reads a dialog DAT.
    #[verifier::rlimit(40)]
    pub fn parse(bytes: &[u8]) -> (r: Result<Dialog, DatError>)
        ensures
            match r {
                Ok(d) => valid_dialog(bytes@) && d.entries_seq() == parsed_dialog(bytes@) && d.well_formed(),
                Err(e) => !valid_dialog(bytes@) && e == dialog_error(bytes@),
            },
    {
        let ghost b = bytes@;
        let len = bytes.len();
        if len == 4 {
            let marker = read_u32(bytes, 0).unwrap();
            if marker == 0 {
                let d = Dialog { entries: Vec::new() };
                assert(d.entries_seq() =~= parsed_dialog(b));
                return Ok(d);
            }
            return Err(DatError::DialogEmptyMarker(marker));
        }
        if len < 4 {
            return Err(DatError::Malformed);
        }
        let size_info = read_u32(bytes, 0).unwrap();
        if size_info == 0 {
            return Err(DatError::DialogEmpty);
        }
        let file_size: u64 = (size_info ^ 0x10000000u32) as u64 + 4;
        if file_size != len as u64 {
            return Err(DatError::DialogFileSize(file_size, len));
        }
        if len < 8 {
            return Err(DatError::Malformed);
        }
        let shifted = read_u32(bytes, 4).unwrap() ^ DIALOG_MASK;
        if shifted % 4 != 0 || shifted < 4 || shifted as u64 + 4 > len as u64 {
            return Err(DatError::DialogStringCount(shifted, len));
        }
        assert(dialog_header_ok(b));
        let count: u32 = shifted / 4;
        let mut entries: Vec<(u32, Vec<u8>)> = Vec::new();
        let mut start: usize = 4 + shifted as usize;
        let mut k: u32 = 0;
        while k < count
            invariant
                b == bytes@,
                len == b.len(),
                dialog_header_ok(b),
                count == shifted_count(b) / 4,
                k <= count,
                start as int == string_start(b, k as int),
                start <= len,
                forall|q: int| 0 <= q < k ==> #[trigger] string_start(b, q) <= string_end(b, q) <= b.len(),
                entries@.len() == k,
                forall|q: int| 0 <= q < k ==> (#[trigger] entries@[q]).0 == q && entries@[q].1@
                    == trim_zeros(masked(b.subrange(string_start(b, q), string_end(b, q)))),
            decreases count - k,
        {
            let end: u64 = if k + 1 < count {
                (read_u32(bytes, 8 + 4 * k as usize).unwrap() ^ DIALOG_MASK) as u64 + 4
            } else {
                len as u64
            };
            assert(end == string_end(b, k as int));
            if end < start as u64 || end > len as u64 {
                proof {
                    assert(!(string_start(b, k as int) <= string_end(b, k as int) <= b.len()));
                    assert(!strings_ordered(b));
                }
                return Err(DatError::Malformed);
            }
            let line = read_line(bytes, start, end as usize);
            entries.push((k, line));
            start = end as usize;
            k = k + 1;
        }
        let d = Dialog { entries };
        assert(d.entries_seq() =~= parsed_dialog(b));
        Ok(d)
    }
}

// ---------------------------------------------------------------- writing

/// Total length of the lines.
pub open spec fn lines_len(s: Seq<(u32, Seq<u8>)>) -> int
    decreases s.len(),
{
    if s.len() == 0 {
        0
    } else {
        lines_len(s.drop_last()) + s.last().1.len()
    }
}

/// Size of the written DAT before padding.
pub open spec fn unpadded_size(s: Seq<(u32, Seq<u8>)>) -> int {
    4 + 4 * s.len() + lines_len(s)
}

pub open spec fn padded_size(s: Seq<(u32, Seq<u8>)>) -> int {
    unpadded_size(s) + spec_padding(unpadded_size(s))
}

/// The end word written for line `k` (for `k` from 1): where line `k - 1`
/// ends, less four.
pub open spec fn end_word(s: Seq<(u32, Seq<u8>)>, k: int) -> Seq<u8> {
    u32_bytes(((4 + 4 * s.len() + lines_len(s.subrange(0, k)) - 4) as u32) ^ 0x80808080u32)
}

pub open spec fn end_words(s: Seq<(u32, Seq<u8>)>, k: int) -> Seq<u8>
    decreases k,
{
    if k <= 1 {
        Seq::empty()
    } else {
        end_words(s, k - 1) + end_word(s, k - 1)
    }
}

pub open spec fn masked_lines(s: Seq<(u32, Seq<u8>)>, k: int) -> Seq<u8>
    decreases k,
{
    if k <= 0 {
        Seq::empty()
    } else {
        masked_lines(s, k - 1) + masked(s[k - 1].1)
    }
}

/// The bytes of a dialog DAT holding the lines `s` in their order: the empty
/// marker for no lines; else the size word, the count word, the ends of all
/// lines but the last, the masked lines, and masked padding to a multiple of
/// four.
pub open spec fn dialog_bytes(s: Seq<(u32, Seq<u8>)>) -> Seq<u8> {
    if s.len() == 0 {
        seq![0u8, 0u8, 0u8, 0u8]
    } else {
        u32_bytes((((padded_size(s) as u32) ^ 0x10000000u32) - 4) as u32) + u32_bytes(
            ((4 * s.len()) as u32) ^ 0x80808080u32,
        ) + end_words(s, s.len() as int) + masked_lines(s, s.len() as int) + Seq::new(
            spec_padding(unpadded_size(s)) as nat,
            |i: int| 0x80u8,
        )
    }
}

/// Whether the lines fit the format's 32-bit size fields.
pub open spec fn dialog_writable(s: Seq<(u32, Seq<u8>)>) -> bool {
    padded_size(s) < 0x1000_0000
}

proof fn lemma_lines_len_prefix(s: Seq<(u32, Seq<u8>)>, k: int)
    requires
        0 <= k <= s.len(),
    ensures
        0 <= lines_len(s.subrange(0, k)) <= lines_len(s),
    decreases s.len(),
{
    if k < s.len() {
        assert(s.drop_last().subrange(0, k) =~= s.subrange(0, k));
        lemma_lines_len_prefix(s.drop_last(), k);
    } else {
        assert(s.subrange(0, k) =~= s);
    }
    if s.len() > 0 {
        lemma_lines_len_prefix(s.drop_last(), s.len() - 1);
    }
}

impl Dialog {
    /// Writes the dialog DAT, lines in the order of their IDs; lines too
    /// large for the format's size fields cannot be written.
    pub fn write(&self) -> (r: Result<Vec<u8>, DatError>)
        requires
            self.well_formed(),
        ensures
            match r {
                Ok(out) => (self.entries@.len() == 0 || dialog_writable(self.entries_seq())) && out@
                    == dialog_bytes(self.entries_seq()),
                Err(e) => self.entries@.len() > 0 && !dialog_writable(self.entries_seq()) && e
                    == DatError::Unwritable,
            },
    {
        let ghost s = self.entries_seq();
        let n = self.entries.len();
        if n == 0 {
            let mut out: Vec<u8> = Vec::new();
            out.push(0);
            out.push(0);
            out.push(0);
            out.push(0);
            assert(out@ =~= dialog_bytes(s));
            return Ok(out);
        }
        // Total length of the lines.
        let mut total: u64 = 0;
        let mut i: usize = 0;
        while i < n
            invariant
                n == self.entries@.len(),
                s == self.entries_seq(),
                i <= n,
                total == lines_len(s.subrange(0, i as int)),
                total < 0x1000_0000,
            decreases n - i,
        {
            assert(s.subrange(0, i + 1).drop_last() =~= s.subrange(0, i as int));
            let len = self.entries[i].1.len() as u64;
            if len >= 0x1000_0000 - total {
                proof {
                    lemma_lines_len_prefix(s, i + 1);
                }
                return Err(DatError::Unwritable);
            }
            total = total + len;
            i = i + 1;
        }
        assert(s.subrange(0, n as int) =~= s);
        if n as u64 >= 0x1000_0000 {
            return Err(DatError::Unwritable);
        }
        let unpadded: usize = 4 + 4 * n + total as usize;
        let file_size: usize = unpadded + get_padding(unpadded);
        if file_size >= 0x1000_0000 {
            return Err(DatError::Unwritable);
        }
        let mut out: Vec<u8> = Vec::new();
        let fs32 = file_size as u32;
        assert((fs32 ^ 0x10000000u32) >= 0x10000000u32) by (bit_vector)
            requires
                fs32 < 0x10000000u32,
        ;
        push_u32(&mut out, (fs32 ^ 0x10000000u32) - 4);
        push_u32(&mut out, ((4 * n) as u32) ^ DIALOG_MASK);
        let ghost header = out@;
        // Ends of every line but the last.
        proof {
            assert(s.subrange(0, 1).drop_last() =~= s.subrange(0, 0));
            assert(s.subrange(0, 1).last() == s[0]);
            assert(s[0].1 == self.entries@[0].1@);
            assert(lines_len(s.subrange(0, 0)) == 0);
            assert(lines_len(s.subrange(0, 1)) == self.entries@[0].1@.len());
            lemma_lines_len_prefix(s, 1);
        }
        let mut current: u64 = 4 + 4 * n as u64 + self.entries[0].1.len() as u64 - 4;
        let mut k: usize = 1;
        while k < n
            invariant
                n == self.entries@.len(),
                s == self.entries_seq(),
                1 <= k <= n,
                current == 4 + 4 * n + lines_len(s.subrange(0, k as int)) - 4,
                lines_len(s) < 0x1000_0000,
                4 + 4 * n + lines_len(s) < 0x1000_0000,
                out@ == header + end_words(s, k as int),
            decreases n - k,
        {
            proof {
                lemma_lines_len_prefix(s, k as int);
                lemma_lines_len_prefix(s, k + 1);
                assert(s.subrange(0, k + 1).drop_last() =~= s.subrange(0, k as int));
                assert(s.subrange(0, k + 1).last() == s[k as int]);
            }
            push_u32(&mut out, (current as u32) ^ DIALOG_MASK);
            current = current + self.entries[k].1.len() as u64;
            assert(out@ =~= header + end_words(s, k + 1));
            k = k + 1;
        }
        let ghost with_ends = out@;
        // The masked lines.
        let mut k: usize = 0;
        while k < n
            invariant
                n == self.entries@.len(),
                s == self.entries_seq(),
                k <= n,
                out@ == with_ends + masked_lines(s, k as int),
            decreases n - k,
        {
            let line = &self.entries[k].1;
            let ghost before = out@;
            let mut j: usize = 0;
            while j < line.len()
                invariant
                    j <= line@.len(),
                    out@ == before + masked(line@.subrange(0, j as int)),
                decreases line@.len() - j,
            {
                out.push(line[j] ^ 0x80u8);
                assert(out@ =~= before + masked(line@.subrange(0, j + 1)));
                j = j + 1;
            }
            assert(line@.subrange(0, line@.len() as int) =~= line@);
            assert(out@ =~= with_ends + masked_lines(s, k + 1));
            k = k + 1;
        }
        let ghost with_lines = out@;
        let pad = get_padding(unpadded);
        let mut p: usize = 0;
        while p < pad
            invariant
                p <= pad,
                out@ == with_lines + Seq::new(p as nat, |i: int| 0x80u8),
            decreases pad - p,
        {
            out.push(0x80u8);
            assert(out@ =~= with_lines + Seq::new((p + 1) as nat, |i: int| 0x80u8));
            p = p + 1;
        }
        assert(out@ =~= dialog_bytes(s));
        Ok(out)
    }
}

} // verus!

verus! {

// ---------------------------------------------------------------- round trip

proof fn lemma_masked_twice(s: Seq<u8>)
    ensures
        masked(masked(s)) == s,
{
    assert forall|i: int| 0 <= i < s.len() implies masked(masked(s))[i] == s[i] by {
        let x = s[i];
        assert((x ^ 0x80u8) ^ 0x80u8 == x) by (bit_vector);
    }
    assert(masked(masked(s)) =~= s);
}

proof fn lemma_trim_kept(s: Seq<u8>)
    requires
        s.len() == 0 || s.last() != 0,
    ensures
        trim_zeros(s) == s,
{
}

proof fn lemma_trim_padding(s: Seq<u8>, m: nat)
    requires
        s.len() == 0 || s.last() != 0,
    ensures
        trim_zeros(s + Seq::new(m, |i: int| 0u8)) == s,
    decreases m,
{
    if m == 0 {
        assert(s + Seq::new(0, |i: int| 0u8) =~= s);
    } else {
        let t = s + Seq::new(m, |i: int| 0u8);
        assert(t.last() == 0);
        assert(t.drop_last() =~= s + Seq::new((m - 1) as nat, |i: int| 0u8));
        lemma_trim_padding(s, (m - 1) as nat);
    }
}

proof fn lemma_end_words_shape(s: Seq<(u32, Seq<u8>)>, k: int)
    requires
        1 <= k,
    ensures
        end_words(s, k).len() == 4 * (k - 1),
        forall|j: int| 1 <= j < k ==> #[trigger] end_words(s, k).subrange(4 * (j - 1), 4 * j) == end_word(s, j),
    decreases k,
{
    if k > 1 {
        lemma_end_words_shape(s, k - 1);
        assert forall|j: int| 1 <= j < k implies #[trigger] end_words(s, k).subrange(4 * (j - 1), 4 * j)
            == end_word(s, j) by {
            if j < k - 1 {
                assert(end_words(s, k).subrange(4 * (j - 1), 4 * j) =~= end_words(s, k - 1).subrange(
                    4 * (j - 1),
                    4 * j,
                ));
            } else {
                assert(end_words(s, k).subrange(4 * (j - 1), 4 * j) =~= end_word(s, j));
            }
        }
    }
}

proof fn lemma_masked_lines_shape(s: Seq<(u32, Seq<u8>)>, k: int)
    requires
        0 <= k <= s.len(),
    ensures
        masked_lines(s, k).len() == lines_len(s.subrange(0, k)),
        forall|j: int|
            0 <= j < k ==> #[trigger] masked_lines(s, k).subrange(
                lines_len(s.subrange(0, j)),
                lines_len(s.subrange(0, j + 1)),
            ) == masked(s[j].1),
    decreases k,
{
    if k > 0 {
        lemma_masked_lines_shape(s, k - 1);
        assert(s.subrange(0, k).drop_last() =~= s.subrange(0, k - 1));
        assert(s.subrange(0, k).last() == s[k - 1]);
        assert forall|j: int| 0 <= j < k implies #[trigger] masked_lines(s, k).subrange(
            lines_len(s.subrange(0, j)),
            lines_len(s.subrange(0, j + 1)),
        ) == masked(s[j].1) by {
            lemma_lines_len_prefix(s.subrange(0, k), j);
            lemma_lines_len_prefix(s.subrange(0, k), j + 1);
            assert(s.subrange(0, k).subrange(0, j) =~= s.subrange(0, j));
            assert(s.subrange(0, k).subrange(0, j + 1) =~= s.subrange(0, j + 1));
            lemma_lines_len_prefix(s.subrange(0, j + 1), j);
            assert(s.subrange(0, j + 1).subrange(0, j) =~= s.subrange(0, j));
            if j < k - 1 {
                lemma_lines_len_prefix(s.subrange(0, k - 1), j + 1);
                assert(s.subrange(0, k - 1).subrange(0, j + 1) =~= s.subrange(0, j + 1));
                assert(masked_lines(s, k).subrange(lines_len(s.subrange(0, j)), lines_len(s.subrange(0, j + 1)))
                    =~= masked_lines(s, k - 1).subrange(lines_len(s.subrange(0, j)), lines_len(s.subrange(0, j + 1))));
            } else {
                assert(masked_lines(s, k).subrange(lines_len(s.subrange(0, j)), lines_len(s.subrange(0, j + 1)))
                    =~= masked(s[j].1));
            }
        }
    }
}

proof fn lemma_unmask_padded(x: Seq<u8>, pad: nat)
    ensures
        masked(masked(x) + Seq::new(pad, |i: int| 0x80u8)) == x + Seq::new(pad, |i: int| 0u8),
{
    lemma_masked_twice(x);
    let m = masked(masked(x) + Seq::new(pad, |i: int| 0x80u8));
    let z = x + Seq::new(pad, |i: int| 0u8);
    assert forall|i: int| 0 <= i < x.len() + pad implies #[trigger] m[i] == z[i] by {
        if i < x.len() {
            assert(masked(masked(x))[i] == x[i]);
        } else {
            assert((0x80u8 ^ 0x80u8) == 0u8) by (bit_vector);
        }
    }
    assert(m =~= z);
}

/// Reading a written dialog gives back its lines, when they are numbered from
/// zero in order, none ends with a zero byte, and they fit the format.
#[verifier::spinoff_prover]
#[verifier::rlimit(60)]
pub proof fn lemma_dialog_round_trip(s: Seq<(u32, Seq<u8>)>)
    requires
        forall|k: int| 0 <= k < s.len() ==> (#[trigger] s[k]).0 == k,
        forall|k: int| 0 <= k < s.len() ==> (#[trigger] s[k]).1.len() == 0 || s[k].1.last() != 0,
        s.len() == 0 || dialog_writable(s),
    ensures
        valid_dialog(dialog_bytes(s)),
        parsed_dialog(dialog_bytes(s)) == s,
{
    let b = dialog_bytes(s);
    if s.len() == 0 {
        assert(parsed_dialog(b) =~= s);
        return;
    }
    let n = s.len() as int;
    let total = lines_len(s);
    lemma_lines_len_prefix(s, n);
    assert(s.subrange(0, n) =~= s);
    let p = padded_size(s);
    let pad = spec_padding(unpadded_size(s));
    let size_word = ((((p as u32) ^ 0x10000000u32) - 4) as u32);
    let count_word = ((4 * n) as u32) ^ 0x80808080u32;
    lemma_end_words_shape(s, n);
    lemma_masked_lines_shape(s, n);
    let ends = end_words(s, n);
    let lines = masked_lines(s, n);
    let padding = Seq::new(pad as nat, |i: int| 0x80u8);
    assert(b =~= u32_bytes(size_word) + u32_bytes(count_word) + ends + lines + padding);
    assert(b.len() == 8 + 4 * (n - 1) + total + pad);
    assert(b.len() == p);
    // The two header words.
    crate::bytes::lemma_u32_round_trip(size_word);
    crate::bytes::lemma_u32_round_trip(count_word);
    assert(b.subrange(0, 4) =~= u32_bytes(size_word));
    assert(b.subrange(4, 8) =~= u32_bytes(count_word));
    assert(u32_at(b, 0) == size_word) by {
        assert(u32_at(b, 0) == u32_at(b.subrange(0, 4), 0));
    }
    assert(u32_at(b, 4) == count_word) by {
        assert(u32_at(b, 4) == u32_at(b.subrange(4, 8), 0));
    }
    let p32 = p as u32;
    assert(p32 == p);
    assert(((((p32 ^ 0x10000000u32) - 4) as u32) ^ 0x10000000u32) + 4 == p32) by (bit_vector)
        requires
            8 <= p32 < 0x10000000u32,
    ;
    assert(((((p32 ^ 0x10000000u32) - 4) as u32)) != 0) by (bit_vector)
        requires
            p32 < 0x10000000u32,
    ;
    let c32 = (4 * n) as u32;
    assert((c32 ^ 0x80808080u32) ^ 0x80808080u32 == c32) by (bit_vector);
    assert(shifted_count(b) == 4 * n);
    assert(dialog_header_ok(b));
    // Where the lines start and end.
    let data = 4 + 4 * n;
    assert forall|k: int| 0 <= k < n - 1 implies #[trigger] string_end(b, k) == data + lines_len(s.subrange(0, k + 1)) by {
        {
            let w = ((data + lines_len(s.subrange(0, k + 1)) - 4) as u32) ^ 0x80808080u32;
            assert(ends.subrange(4 * k, 4 * (k + 1)) == end_word(s, k + 1));
            assert(b.subrange(8 + 4 * k, 12 + 4 * k) =~= ends.subrange(4 * k, 4 * (k + 1)));
            crate::bytes::lemma_u32_round_trip(w);
            assert(u32_at(b, 8 + 4 * k) == u32_at(b.subrange(8 + 4 * k, 12 + 4 * k), 0));
            lemma_lines_len_prefix(s, k + 1);
            let e32 = (data + lines_len(s.subrange(0, k + 1)) - 4) as u32;
            assert((e32 ^ 0x80808080u32) ^ 0x80808080u32 == e32) by (bit_vector);
        }
    }
    assert forall|k: int| 0 <= k < n implies #[trigger] string_start(b, k) == data + lines_len(s.subrange(0, k)) by {
        if k > 0 {
            assert(0 <= k - 1 < n - 1);
            assert(string_end(b, k - 1) == data + lines_len(s.subrange(0, k)));
        } else {
            assert(lines_len(s.subrange(0, 0)) == 0);
        }
    }
    assert forall|k: int| 0 <= k < n implies #[trigger] parsed_dialog(b)[k] == s[k] by {
        lemma_lines_len_prefix(s, k);
        lemma_lines_len_prefix(s, k + 1);
        assert(s.subrange(0, k + 1).drop_last() =~= s.subrange(0, k));
        assert(s.subrange(0, k + 1).last() == s[k]);
        let lo = lines_len(s.subrange(0, k));
        let hi = lines_len(s.subrange(0, k + 1));
        assert(lines.subrange(lo, hi) == masked(s[k].1));
        lemma_masked_twice(s[k].1);
        if k + 1 < n {
            assert(b.subrange(data + lo, data + hi) =~= lines.subrange(lo, hi));
            lemma_trim_kept(s[k].1);
        } else {
            assert(b.subrange(data + lo, b.len() as int) =~= lines.subrange(lo, hi) + padding);
            lemma_unmask_padded(s[k].1, pad as nat);
            lemma_trim_padding(s[k].1, pad as nat);
        }
    }
    assert(strings_ordered(b)) by {
        assert forall|k: int| 0 <= k < shifted_count(b) / 4 implies #[trigger] string_start(b, k) <= string_end(b, k) <= b.len() by {
            lemma_lines_len_prefix(s, k);
            lemma_lines_len_prefix(s, k + 1);
            assert(s.subrange(0, k + 1).drop_last() =~= s.subrange(0, k));
        }
    }
    assert(parsed_dialog(b) =~= s);
}

} // verus!
