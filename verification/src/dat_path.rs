use vstd::prelude::*;
use vstd::string::{StrSliceExecFns, StringExecFns};
use crate::text::{decimal_chars, lower_chars, upper_chars, parse_decimal_spec};

verus! {

/// Location of a DAT file below a client root: `ROM<rom>/<folder>/<file>.DAT`,
/// where the first ROM directory is written `ROM` alone.
#[derive(Clone, Copy, Debug, PartialEq, Eq, Structural)]
pub struct DatPath {
    pub rom_id: u8,
    pub folder_id: u16,
    pub file_id: u16,
}

/// A key that orders DAT paths as their fields do, in declaration order.
pub open spec fn dat_path_key(p: DatPath) -> int {
    p.rom_id * 4294967296 + p.folder_id * 65536 + p.file_id
}

/// The relative path of a DAT, with `/` separators.
pub open spec fn logical_path_chars(p: DatPath) -> Seq<char> {
    seq!['R', 'O', 'M'] + (if p.rom_id == 1 {
        Seq::<char>::empty()
    } else {
        decimal_chars(p.rom_id as nat)
    }) + seq!['/'] + decimal_chars(p.folder_id as nat) + seq!['/'] + decimal_chars(
        p.file_id as nat,
    ) + seq!['.', 'D', 'A', 'T']
}

impl DatPath {
    /// The relative path of the DAT, with `/` separators.
    pub fn logical_path(&self) -> (s: String)
        ensures
            s@ == logical_path_chars(*self),
    {
        let mut s = String::new();
        proof {
            reveal_strlit("ROM");
            reveal_strlit("/");
            reveal_strlit(".DAT");
        }
        s.append("ROM");
        if self.rom_id != 1 {
            crate::text::push_decimal(&mut s, self.rom_id as u64);
        }
        s.append("/");
        crate::text::push_decimal(&mut s, self.folder_id as u64);
        s.append("/");
        crate::text::push_decimal(&mut s, self.file_id as u64);
        s.append(".DAT");
        assert(s@ =~= logical_path_chars(*self));
        s
    }

    /// Orders DAT paths by ROM, then folder, then file.
    pub fn key(&self) -> (k: u64)
        ensures
            k == dat_path_key(*self),
    {
        self.rom_id as u64 * 4294967296 + self.folder_id as u64 * 65536 + self.file_id as u64
    }
}

/// Index of the Xbox publisher package slot that serves a logical DAT path;
/// it depends on the path, not on the DAT's table ID.
pub open spec fn spec_xbox_package_index(dat_path: DatPath) -> int {
    (dat_path.rom_id + dat_path.folder_id * 128 + dat_path.file_id) % 12
}

pub fn xbox_package_index(dat_path: DatPath) -> (index: usize)
    ensures
        index == spec_xbox_package_index(dat_path),
        index < 12,
{
    let sum: u32 = dat_path.rom_id as u32 + dat_path.folder_id as u32 * 128
        + dat_path.file_id as u32;
    (sum % 12) as usize
}

/// How the package slot moves with the path: the path of ROM 0, folder 0,
/// file 0 is in slot 0; the next ROM number, or the next file number, is in
/// the next slot (wrapping after slot 11); the next folder number is eight
/// slots on. ROM2/0/0.DAT, for one, is in slot 2.
pub proof fn lemma_package_slot_steps(p: DatPath)
    ensures
        spec_xbox_package_index(DatPath { rom_id: 0, folder_id: 0, file_id: 0 }) == 0,
        spec_xbox_package_index(DatPath { rom_id: 2, folder_id: 0, file_id: 0 }) == 2,
        0 <= spec_xbox_package_index(p) < 12,
        p.rom_id < 255 ==> spec_xbox_package_index(DatPath { rom_id: (p.rom_id + 1) as u8, ..p }) == (
        spec_xbox_package_index(p) + 1) % 12,
        p.file_id < 65535 ==> spec_xbox_package_index(DatPath { file_id: (p.file_id + 1) as u16, ..p }) == (
        spec_xbox_package_index(p) + 1) % 12,
        p.folder_id < 65535 ==> spec_xbox_package_index(DatPath { folder_id: (p.folder_id + 1) as u16, ..p })
            == (spec_xbox_package_index(p) + 8) % 12,
{
    let t = p.rom_id + p.folder_id * 128 + p.file_id;
    assert((t + 1) % 12 == (t % 12 + 1) % 12) by (nonlinear_arith)
        requires
            t >= 0,
    ;
    assert((t + 128) % 12 == (t % 12 + 8) % 12) by (nonlinear_arith)
        requires
            t >= 0,
    ;
    assert(p.rom_id + (p.folder_id + 1) * 128 + p.file_id == t + 128) by (nonlinear_arith)
        requires
            t == p.rom_id + p.folder_id * 128 + p.file_id,
    ;
}

/// Name of package slot `index`: `R0001` and the two-digit slot number.
pub open spec fn package_name_chars(index: int) -> Seq<char> {
    seq!['R', '0', '0', '0', '1', if index < 10 {
        '0'
    } else {
        '1'
    }, crate::text::digit_char((index % 10) as nat)]
}

/// Name of the base package, which holds the DAT tables.
pub open spec fn base_package_chars() -> Seq<char> {
    seq!['0', '0', '0', '1']
}

pub fn xbox_package_name(index: usize) -> (name: &'static str)
    requires
        index < 12,
    ensures
        name@ == package_name_chars(index as int),
{
    if index == 0 {
        proof { reveal_strlit("R000100"); }
        "R000100"
    } else if index == 1 {
        proof { reveal_strlit("R000101"); }
        "R000101"
    } else if index == 2 {
        proof { reveal_strlit("R000102"); }
        "R000102"
    } else if index == 3 {
        proof { reveal_strlit("R000103"); }
        "R000103"
    } else if index == 4 {
        proof { reveal_strlit("R000104"); }
        "R000104"
    } else if index == 5 {
        proof { reveal_strlit("R000105"); }
        "R000105"
    } else if index == 6 {
        proof { reveal_strlit("R000106"); }
        "R000106"
    } else if index == 7 {
        proof { reveal_strlit("R000107"); }
        "R000107"
    } else if index == 8 {
        proof { reveal_strlit("R000108"); }
        "R000108"
    } else if index == 9 {
        proof { reveal_strlit("R000109"); }
        "R000109"
    } else if index == 10 {
        proof { reveal_strlit("R000110"); }
        "R000110"
    } else {
        proof { reveal_strlit("R000111"); }
        "R000111"
    }
}

/// The base package name.
pub fn base_package_name() -> (name: &'static str)
    ensures
        name@ == base_package_chars(),
{
    proof { reveal_strlit("0001"); }
    "0001"
}

/// The package a missing DAT is expected in: its slot, except that slot zero
/// falls back to the base package.
pub open spec fn missing_package_chars(dat_path: DatPath) -> Seq<char> {
    let index = spec_xbox_package_index(dat_path);
    if index == 0 {
        base_package_chars()
    } else {
        package_name_chars(index)
    }
}

pub fn xbox_missing_package_name(dat_path: DatPath) -> (name: &'static str)
    ensures
        name@ == missing_package_chars(dat_path),
{
    let index = xbox_package_index(dat_path);
    if index == 0 {
        base_package_name()
    } else {
        xbox_package_name(index)
    }
}

} // verus!

verus! {

/// Whether `s[start..end)` is a path component of its own: it is not empty,
/// and it is not a `.` other than one that opens the path.
pub open spec fn kept_segment(s: Seq<char>, start: int, end: int) -> bool {
    start < end && !(end == start + 1 && s[start] == '.' && start > 0)
}

/// Scans `s[0..n)` for `/`-separated segments: the kept segments that
/// ended before `n`, as (start, end) pairs, and the start of the current one.
pub open spec fn segment_scan(s: Seq<char>, n: int) -> (Seq<(int, int)>, int)
    decreases n,
{
    if n <= 0 {
        (seq![], 0)
    } else {
        let (segs, start) = segment_scan(s, n - 1);
        if s[n - 1] == '/' {
            (
                if kept_segment(s, start, n - 1) {
                    segs.push((start, n - 1))
                } else {
                    segs
                },
                n,
            )
        } else {
            (segs, start)
        }
    }
}

/// The `/`-separated components of `s` after its root, as (start, end) pairs:
/// empty segments and `.` segments that do not open the path are left out.
pub open spec fn segments(s: Seq<char>) -> Seq<(int, int)> {
    let (segs, start) = segment_scan(s, s.len() as int);
    if kept_segment(s, start, s.len() as int) {
        segs.push((start, s.len() as int))
    } else {
        segs
    }
}

/// Number of path components: a leading `/` is a component of its own.
pub open spec fn component_count(s: Seq<char>) -> int {
    (if s.len() > 0 && s[0] == '/' {
        1int
    } else {
        0int
    }) + segments(s).len()
}

/// Component `i` of the path, for `i` past the root component (if any).
pub open spec fn component(s: Seq<char>, i: int) -> Seq<char> {
    let offset = if s.len() > 0 && s[0] == '/' {
        1int
    } else {
        0int
    };
    let (a, b) = segments(s)[i - offset];
    s.subrange(a, b)
}

/// Index of the last `.` in `s`, if any.
pub open spec fn last_dot(s: Seq<char>) -> Option<int>
    decreases s.len(),
{
    if s.len() == 0 {
        None
    } else if s.last() == '.' {
        Some(s.len() - 1)
    } else {
        last_dot(s.drop_last())
    }
}

/// Whether `rom` opens with `ROM`, letters compared without regard to case.
pub open spec fn has_rom_prefix(rom: Seq<char>) -> bool {
    rom.len() >= 3 && upper_chars(rom.subrange(0, 3)) == seq!['R', 'O', 'M']
}

/// The ROM number a ROM directory name stands for: `ROM` is 1 and `ROM<n>`
/// is `n`, letters compared without regard to case.
pub open spec fn rom_id_spec(rom: Seq<char>) -> Option<nat> {
    if !has_rom_prefix(rom) {
        None
    } else if rom.len() == 3 {
        Some(1)
    } else {
        parse_decimal_spec(rom.subrange(3, rom.len() as int))
    }
}

/// Reads `<package>/ROM<n>/<folder>/<file>.DAT` (four components, the first
/// of which is ignored; the extension's case is ignored).
pub open spec fn parse_dat_path_spec(s: Seq<char>) -> Option<DatPath> {
    if component_count(s) != 4 {
        None
    } else {
        let rom = component(s, 1);
        let folder = component(s, 2);
        let file = component(s, 3);
        match last_dot(file) {
            None => None,
            Some(dot) => {
                let stem = file.subrange(0, dot);
                let ext = file.subrange(dot + 1, file.len() as int);
                if lower_chars(ext) != seq!['d', 'a', 't'] {
                    None
                } else {
                    match (parse_decimal_spec(stem), parse_decimal_spec(folder), rom_id_spec(rom)) {
                        (Some(file_id), Some(folder_id), Some(rom_id)) => {
                            if file_id <= u16::MAX && folder_id <= u16::MAX && rom_id <= u8::MAX {
                                Some(
                                    DatPath {
                                        rom_id: rom_id as u8,
                                        folder_id: folder_id as u16,
                                        file_id: file_id as u16,
                                    },
                                )
                            } else {
                                None
                            }
                        },
                        _ => None,
                    }
                }
            },
        }
    }
}

pub(crate) fn scan_segments(s: &str) -> (r: Vec<(usize, usize)>)
    ensures
        r@.len() == segments(s@).len(),
        forall|i: int|
            0 <= i < r@.len() ==> r@[i].0 as int == segments(s@)[i].0 && r@[i].1 as int
                == segments(s@)[i].1,
        forall|i: int| 0 <= i < r@.len() ==> #[trigger] r@[i].0 <= r@[i].1 <= s@.len(),
{
    let n = s.unicode_len();
    let mut segs: Vec<(usize, usize)> = Vec::new();
    let mut start: usize = 0;
    let mut i: usize = 0;
    while i < n
        invariant
            n == s@.len(),
            i <= n,
            start <= i,
            segment_scan(s@, i as int).1 == start as int,
            segs@.len() == segment_scan(s@, i as int).0.len(),
            forall|j: int|
                0 <= j < segs@.len() ==> segs@[j].0 as int == segment_scan(s@, i as int).0[j].0
                    && segs@[j].1 as int == segment_scan(s@, i as int).0[j].1,
            forall|j: int| 0 <= j < segs@.len() ==> #[trigger] segs@[j].0 <= segs@[j].1 <= i,
        decreases n - i,
    {
        if s.get_char(i) == '/' {
            if start < i && !(i == start + 1 && s.get_char(start) == '.' && start > 0) {
                segs.push((start, i));
            }
            start = i + 1;
        }
        i = i + 1;
    }
    if start < n && !(n == start + 1 && s.get_char(start) == '.' && start > 0) {
        segs.push((start, n));
    }
    segs
}

fn last_dot_exec(s: &str) -> (r: Option<usize>)
    ensures
        match r {
            Some(k) => last_dot(s@) == Some(k as int) && k < s@.len(),
            None => last_dot(s@) is None,
        },
{
    let n = s.unicode_len();
    let mut i = n;
    assert(s@.subrange(0, n as int) =~= s@);
    while i > 0
        invariant
            n == s@.len(),
            i <= n,
            last_dot(s@) == last_dot(s@.subrange(0, i as int)),
        decreases i,
    {
        assert(s@.subrange(0, i as int).drop_last() =~= s@.subrange(0, i - 1));
        if s.get_char(i - 1) == '.' {
            return Some(i - 1);
        }
        i = i - 1;
    }
    None
}


fn is_rom_letter(c: char, upper: char, lower: char) -> (r: bool)
    requires
        'A' <= upper <= 'Z',
        lower as u32 == upper as u32 + 32,
    ensures
        r == (crate::text::upper_char(c) == upper),
{
    if 'a' <= c && c <= 'z' {
        assert((crate::text::upper_char(c) as u32) == (c as u32) - 32);
    }
    c == upper || c == lower
}

fn has_rom_prefix_exec(rom: &str) -> (r: bool)
    ensures
        r == has_rom_prefix(rom@),
{
    if rom.unicode_len() < 3 {
        return false;
    }
    let a = is_rom_letter(rom.get_char(0), 'R', 'r');
    let b = is_rom_letter(rom.get_char(1), 'O', 'o');
    let c = is_rom_letter(rom.get_char(2), 'M', 'm');
    let ghost up = upper_chars(rom@.subrange(0, 3));
    assert(up.len() == 3);
    assert(up[0] == crate::text::upper_char(rom@[0]));
    assert(up[1] == crate::text::upper_char(rom@[1]));
    assert(up[2] == crate::text::upper_char(rom@[2]));
    if a && b && c {
        assert(up =~= seq!['R', 'O', 'M']);
    }
    a && b && c
}

fn rom_id_exec(rom: &str) -> (r: Option<u8>)
    ensures
        r == (match rom_id_spec(rom@) {
            Some(v) => if v <= u8::MAX {
                Some(v as u8)
            } else {
                None::<u8>
            },
            None => None::<u8>,
        }),
{
    if !has_rom_prefix_exec(rom) {
        return None;
    }
    let n = rom.unicode_len();
    if n == 3 {
        return Some(1);
    }
    match crate::text::parse_decimal(rom.substring_char(3, n), 255) {
        Some(v) => Some(v as u8),
        None => None,
    }
}

/// Reads the DAT location out of a path relative to the package root:
/// `<package>/ROM<n>/<folder>/<file>.DAT`, `/` separated.
pub fn parse_dat_path(path: &str) -> (r: Option<DatPath>)
    ensures
        r == parse_dat_path_spec(path@),
{
    let segs = scan_segments(path);
    let n = path.unicode_len();
    let offset: usize = if n > 0 && path.get_char(0) == '/' {
        1
    } else {
        0
    };
    if segs.len() != 4 - offset {
        return None;
    }
    let (r0, r1) = segs[1 - offset];
    let (f0, f1) = segs[2 - offset];
    let (d0, d1) = segs[3 - offset];
    let rom = path.substring_char(r0, r1);
    let folder = path.substring_char(f0, f1);
    let file = path.substring_char(d0, d1);
    assert(rom@ == component(path@, 1));
    assert(folder@ == component(path@, 2));
    assert(file@ == component(path@, 3));
    let dot = match last_dot_exec(file) {
        Some(k) => k,
        None => return None,
    };
    let flen = file.unicode_len();
    let stem = file.substring_char(0, dot);
    let ext = file.substring_char(dot + 1, flen);
    proof {
        reveal_strlit("dat");
        assert(lower_chars("dat"@) =~= seq!['d', 'a', 't']);
    }
    if !crate::text::eq_ignore_ascii_case(ext, "dat") {
        return None;
    }
    let file_id = match crate::text::parse_decimal(stem, 65535) {
        Some(v) => v,
        None => return None,
    };
    let folder_id = match crate::text::parse_decimal(folder, 65535) {
        Some(v) => v,
        None => return None,
    };
    let rom_id = match rom_id_exec(rom) {
        Some(v) => v,
        None => return None,
    };
    Some(DatPath { rom_id, folder_id: folder_id as u16, file_id: file_id as u16 })
}

/// `s` with every `\\` replaced by `/`.
pub open spec fn forward_slashes(s: Seq<char>) -> Seq<char> {
    s.map_values(|c: char| if c == '\\' { '/' } else { c })
}

/// A relative path written with `/` separators, whatever the platform wrote.
pub fn stable_relative_path(path: &str) -> (r: String)
    ensures
        r@ == forward_slashes(path@),
{
    let n = path.unicode_len();
    let mut out = String::new();
    let mut i: usize = 0;
    proof {
        reveal_strlit("/");
    }
    while i < n
        invariant
            n == path@.len(),
            i <= n,
            out@ == forward_slashes(path@.subrange(0, i as int)),
        decreases n - i,
    {
        let c = path.get_char(i);
        assert(path@.subrange(0, i + 1) =~= path@.subrange(0, i as int).push(c));
        let ghost before = out@;
        if c == '\\' {
            proof {
                reveal_strlit("/");
            }
            out.append("/");
        } else {
            let piece = path.substring_char(i, i + 1);
            assert(piece@ =~= seq![c]);
            out.append(piece);
        }
        assert(out@ =~= before.push(if c == '\\' { '/' } else { c }));
        assert(out@ =~= forward_slashes(path@.subrange(0, i + 1)));
        i = i + 1;
    }
    assert(path@.subrange(0, n as int) =~= path@);
    out
}

} // verus!

verus! {

/// Distinct DAT paths have distinct keys.
pub proof fn lemma_key_injective(p: DatPath, q: DatPath)
    ensures
        dat_path_key(p) == dat_path_key(q) ==> p == q,
{
    let (pr, pf, pd) = (p.rom_id as int, p.folder_id as int, p.file_id as int);
    let (qr, qf, qd) = (q.rom_id as int, q.folder_id as int, q.file_id as int);
    if dat_path_key(p) == dat_path_key(q) {
        assert(pr == qr && pf == qf && pd == qd) by (nonlinear_arith)
            requires
                pr * 4294967296 + pf * 65536 + pd == qr * 4294967296 + qf * 65536 + qd,
                0 <= pf < 65536,
                0 <= qf < 65536,
                0 <= pd < 65536,
                0 <= qd < 65536,
                0 <= pr,
                0 <= qr,
        ;
    }
}

} // verus!
