//! Logical DAT paths: they name one DAT path each, and the path parser
//! reads a package file's path back to its DAT path.
use vstd::prelude::*;
use crate::dat_path::{
    base_package_chars, component, component_count, has_rom_prefix, kept_segment, last_dot,
    logical_path_chars, package_name_chars, parse_dat_path_spec, rom_id_spec, segment_scan,
    segments, DatPath,
};
use crate::text::{
    all_digits, decimal_chars, decimal_digits, digit_char, digits_value, lower_char, lower_chars,
    parse_decimal_spec, upper_char, upper_chars,
};

verus! {

/// Whether no character of `s` is an ASCII lower-case letter.
pub open spec fn no_lower(s: Seq<char>) -> bool {
    forall|k: int| 0 <= k < s.len() ==> !('a' <= #[trigger] s[k] <= 'z')
}

/// Whether no character of `s` is `/`.
pub open spec fn no_slash(s: Seq<char>) -> bool {
    forall|k: int| 0 <= k < s.len() ==> #[trigger] s[k] != '/'
}

/// Whether every character of `s` is an ASCII digit.
pub open spec fn digits_only(s: Seq<char>) -> bool {
    forall|k: int| 0 <= k < s.len() ==> '0' <= #[trigger] s[k] <= '9'
}

proof fn lemma_digit_char(d: nat)
    requires
        d < 10,
    ensures
        '0' <= digit_char(d) <= '9',
        (digit_char(d) as u32) - ('0' as u32) == d,
{
}

/// The decimal digits of `n` are digits, at least one, and spell `n`.
proof fn lemma_decimal(n: nat)
    ensures
        decimal_chars(n).len() > 0,
        digits_only(decimal_chars(n)),
        digits_value(decimal_chars(n)) == n,
    decreases n,
{
    if n < 10 {
        lemma_digit_char(n);
        assert(decimal_chars(n).drop_last() =~= Seq::<char>::empty());
        assert(digits_value(Seq::<char>::empty()) == 0);
        assert(decimal_chars(n).last() == digit_char(n));
    } else {
        lemma_decimal(n / 10);
        lemma_digit_char(n % 10);
        let d = decimal_chars(n);
        assert(d.drop_last() =~= decimal_chars(n / 10));
        assert(d.last() == digit_char(n % 10));
        assert(digits_value(d) == 10 * (n / 10) + n % 10);
        assert forall|k: int| 0 <= k < d.len() implies '0' <= #[trigger] d[k] <= '9' by {
            if k < d.len() - 1 {
                assert(d[k] == decimal_chars(n / 10)[k]);
            }
        }
    }
}

proof fn lemma_decimal_injective(a: nat, b: nat)
    requires
        decimal_chars(a) == decimal_chars(b),
    ensures
        a == b,
{
    lemma_decimal(a);
    lemma_decimal(b);
}

proof fn lemma_digits_plain(s: Seq<char>)
    requires
        digits_only(s),
    ensures
        no_lower(s),
        no_slash(s),
{
    assert forall|k: int| 0 <= k < s.len() implies !('a' <= #[trigger] s[k] <= 'z') by {
        assert('0' <= s[k] <= '9');
    }
    assert forall|k: int| 0 <= k < s.len() implies #[trigger] s[k] != '/' by {
        assert('0' <= s[k] <= '9');
    }
}

proof fn lemma_concat_plain(a: Seq<char>, b: Seq<char>)
    requires
        no_lower(a),
        no_lower(b),
    ensures
        no_lower(a + b),
{
    assert forall|k: int| 0 <= k < (a + b).len() implies !('a' <= #[trigger] (a + b)[k] <= 'z') by {
        if k < a.len() {
            assert((a + b)[k] == a[k]);
        } else {
            assert((a + b)[k] == b[k - a.len()]);
        }
    }
}

proof fn lemma_concat_no_slash(a: Seq<char>, b: Seq<char>)
    requires
        no_slash(a),
        no_slash(b),
    ensures
        no_slash(a + b),
{
    assert forall|k: int| 0 <= k < (a + b).len() implies #[trigger] (a + b)[k] != '/' by {
        if k < a.len() {
            assert((a + b)[k] == a[k]);
        } else {
            assert((a + b)[k] == b[k - a.len()]);
        }
    }
}

/// Splitting at the first `/`: when the parts before it hold no `/`, equal
/// joins have equal parts.
proof fn lemma_split_at_slash(a: Seq<char>, b: Seq<char>, c: Seq<char>, d: Seq<char>)
    requires
        no_slash(a),
        no_slash(c),
        a + seq!['/'] + b == c + seq!['/'] + d,
    ensures
        a == c,
        b == d,
{
    let s = a + seq!['/'] + b;
    let t = c + seq!['/'] + d;
    if a.len() < c.len() {
        assert(s[a.len() as int] == '/');
        assert(t[a.len() as int] == c[a.len() as int]);
    } else if c.len() < a.len() {
        assert(t[c.len() as int] == '/');
        assert(s[c.len() as int] == a[c.len() as int]);
    }
    assert(a =~= s.subrange(0, a.len() as int));
    assert(c =~= t.subrange(0, c.len() as int));
    assert(b =~= s.subrange(a.len() + 1int, s.len() as int));
    assert(d =~= t.subrange(c.len() + 1int, t.len() as int));
}

/// The ROM part of a logical path after `ROM`: empty for the first ROM, its
/// number otherwise.
pub open spec fn rom_suffix(p: DatPath) -> Seq<char> {
    if p.rom_id == 1 {
        Seq::<char>::empty()
    } else {
        decimal_chars(p.rom_id as nat)
    }
}

proof fn lemma_logical_parts(p: DatPath)
    ensures
        logical_path_chars(p) == (seq!['R', 'O', 'M'] + rom_suffix(p)) + seq!['/'] + (decimal_chars(
            p.folder_id as nat,
        ) + seq!['/'] + (decimal_chars(p.file_id as nat) + seq!['.', 'D', 'A', 'T'])),
        no_slash(seq!['R', 'O', 'M'] + rom_suffix(p)),
        no_slash(decimal_chars(p.folder_id as nat)),
        no_lower(logical_path_chars(p)),
{
    let r = rom_suffix(p);
    let f = decimal_chars(p.folder_id as nat);
    let g = decimal_chars(p.file_id as nat);
    lemma_decimal(p.rom_id as nat);
    lemma_decimal(p.folder_id as nat);
    lemma_decimal(p.file_id as nat);
    lemma_digits_plain(decimal_chars(p.rom_id as nat));
    lemma_digits_plain(f);
    lemma_digits_plain(g);
    assert(logical_path_chars(p) =~= (seq!['R', 'O', 'M'] + r) + seq!['/'] + (f + seq!['/'] + (g + seq![
        '.',
        'D',
        'A',
        'T',
    ])));
    let rom = seq!['R', 'O', 'M'];
    assert(no_slash(rom));
    assert(no_lower(rom));
    assert(no_slash(r)) by {
        if p.rom_id == 1 {
            assert(r.len() == 0);
        }
    }
    assert(no_lower(r)) by {
        if p.rom_id == 1 {
            assert(r.len() == 0);
        }
    }
    lemma_concat_no_slash(rom, r);
    lemma_concat_plain(rom, r);
    let slash = seq!['/'];
    let dat = seq!['.', 'D', 'A', 'T'];
    assert(no_lower(slash));
    assert(no_lower(dat));
    lemma_concat_plain(rom + r, slash);
    lemma_concat_plain(rom + r + slash, f);
    lemma_concat_plain(rom + r + slash + f, slash);
    lemma_concat_plain(rom + r + slash + f + slash, g);
    lemma_concat_plain(rom + r + slash + f + slash + g, dat);
    assert(logical_path_chars(p) =~= rom + r + slash + f + slash + g + dat);
}

/// Different DAT paths have different logical paths.
pub proof fn lemma_logical_injective(p: DatPath, q: DatPath)
    requires
        logical_path_chars(p) == logical_path_chars(q),
    ensures
        p == q,
{
    lemma_logical_parts(p);
    lemma_logical_parts(q);
    let rp = seq!['R', 'O', 'M'] + rom_suffix(p);
    let rq = seq!['R', 'O', 'M'] + rom_suffix(q);
    let fp = decimal_chars(p.folder_id as nat);
    let fq = decimal_chars(q.folder_id as nat);
    let gp = decimal_chars(p.file_id as nat) + seq!['.', 'D', 'A', 'T'];
    let gq = decimal_chars(q.file_id as nat) + seq!['.', 'D', 'A', 'T'];
    lemma_split_at_slash(rp, fp + seq!['/'] + gp, rq, fq + seq!['/'] + gq);
    lemma_split_at_slash(fp, gp, fq, gq);
    lemma_decimal_injective(p.folder_id as nat, q.folder_id as nat);
    assert(decimal_chars(p.file_id as nat) =~= gp.subrange(0, gp.len() - 4));
    assert(decimal_chars(q.file_id as nat) =~= gq.subrange(0, gq.len() - 4));
    lemma_decimal_injective(p.file_id as nat, q.file_id as nat);
    assert(rom_suffix(p) =~= rp.subrange(3, rp.len() as int));
    assert(rom_suffix(q) =~= rq.subrange(3, rq.len() as int));
    lemma_decimal(p.rom_id as nat);
    lemma_decimal(q.rom_id as nat);
    if p.rom_id != 1 && q.rom_id != 1 {
        lemma_decimal_injective(p.rom_id as nat, q.rom_id as nat);
    }
}

proof fn lemma_lower_map(a: Seq<char>, b: Seq<char>)
    ensures
        lower_chars(a + b) == lower_chars(a) + lower_chars(b),
{
    assert(lower_chars(a + b) =~= lower_chars(a) + lower_chars(b));
}

proof fn lemma_lower_no_slash(a: Seq<char>)
    requires
        no_slash(a),
    ensures
        no_slash(lower_chars(a)),
{
    assert forall|k: int| 0 <= k < lower_chars(a).len() implies #[trigger] lower_chars(a)[k] != '/' by {
        assert(lower_chars(a)[k] == lower_char(a[k]));
        assert(a[k] != '/');
    }
}

/// Lower-casing is one to one on text without lower-case letters.
proof fn lemma_lower_injective(a: Seq<char>, b: Seq<char>)
    requires
        no_lower(a),
        no_lower(b),
        lower_chars(a) == lower_chars(b),
    ensures
        a == b,
{
    assert(a.len() == lower_chars(a).len());
    assert forall|k: int| 0 <= k < a.len() implies a[k] == b[k] by {
        assert(lower_chars(a)[k] == lower_char(a[k]));
        assert(lower_chars(b)[k] == lower_char(b[k]));
        assert(!('a' <= a[k] <= 'z'));
        assert(!('a' <= b[k] <= 'z'));
    }
    assert(a =~= b);
}

/// Lower-cased `package/logical path` keys of different DAT paths differ,
/// whatever slash-free packages they name.
pub proof fn lemma_key_paths_injective(pa: Seq<char>, p: DatPath, qa: Seq<char>, q: DatPath)
    requires
        no_slash(pa),
        no_slash(qa),
        lower_chars(pa + seq!['/'] + logical_path_chars(p)) == lower_chars(qa + seq!['/'] + logical_path_chars(q)),
    ensures
        p == q,
{
    let lp = logical_path_chars(p);
    let lq = logical_path_chars(q);
    lemma_lower_map(pa + seq!['/'], lp);
    lemma_lower_map(pa, seq!['/']);
    lemma_lower_map(qa + seq!['/'], lq);
    lemma_lower_map(qa, seq!['/']);
    assert(lower_chars(seq!['/']) =~= seq!['/']);
    lemma_lower_no_slash(pa);
    lemma_lower_no_slash(qa);
    lemma_split_at_slash(lower_chars(pa), lower_chars(lp), lower_chars(qa), lower_chars(lq));
    lemma_logical_parts(p);
    lemma_logical_parts(q);
    lemma_lower_injective(lp, lq);
    lemma_logical_injective(p, q);
}

pub(crate) proof fn lemma_package_names_no_slash(index: int)
    ensures
        no_slash(package_name_chars(index)),
        no_slash(base_package_chars()),
{
}


/// Scanning on over characters that are not `/` changes nothing.
proof fn lemma_scan_tail(s: Seq<char>, from: int, n: int)
    requires
        0 <= from <= n <= s.len(),
        forall|k: int| from <= k < n ==> s[k] != '/',
    ensures
        segment_scan(s, n) == segment_scan(s, from),
    decreases n - from,
{
    if n > from {
        lemma_scan_tail(s, from, n - 1);
    }
}

/// A slash-free stretch from the current start up to a `/` closes one
/// component.
proof fn lemma_scan_part(s: Seq<char>, segs: Seq<(int, int)>, start: int, end: int)
    requires
        0 <= start < end < s.len(),
        segment_scan(s, start) == (segs, start),
        forall|k: int| start <= k < end ==> s[k] != '/',
        s[end] == '/',
        kept_segment(s, start, end),
    ensures
        segment_scan(s, end + 1) == (segs.push((start, end)), end + 1),
{
    lemma_scan_tail(s, start, end);
}

/// `a/b/c/d` with slash-free, non-empty parts, none of the last three `.`,
/// is those four components.
proof fn lemma_four_segments(a: Seq<char>, b: Seq<char>, c: Seq<char>, d: Seq<char>)
    requires
        a.len() > 0,
        b.len() > 0,
        c.len() > 0,
        d.len() > 0,
        no_slash(a),
        no_slash(b),
        no_slash(c),
        no_slash(d),
        b[0] != '.' || b.len() > 1,
        c[0] != '.' || c.len() > 1,
        d[0] != '.' || d.len() > 1,
    ensures
        ({
            let s = a + seq!['/'] + b + seq!['/'] + c + seq!['/'] + d;
            let x = a.len() as int;
            let y = x + 1 + b.len();
            let z = y + 1 + c.len();
            segments(s) == seq![(0int, x), (x + 1, y), (y + 1, z), (z + 1, s.len() as int)]
        }),
{
    let s = a + seq!['/'] + b + seq!['/'] + c + seq!['/'] + d;
    let x = a.len() as int;
    let y = x + 1 + b.len();
    let z = y + 1 + c.len();
    assert forall|k: int| 0 <= k < x implies s[k] != '/' by {
        assert(s[k] == a[k]);
    }
    assert forall|k: int| x + 1 <= k < y implies s[k] != '/' by {
        assert(s[k] == b[k - x - 1]);
    }
    assert forall|k: int| y + 1 <= k < z implies s[k] != '/' by {
        assert(s[k] == c[k - y - 1]);
    }
    assert forall|k: int| z + 1 <= k < s.len() implies s[k] != '/' by {
        assert(s[k] == d[k - z - 1]);
    }
    assert(s[x] == '/' && s[y] == '/' && s[z] == '/');
    assert(s[x + 1] == b[0] && s[y + 1] == c[0] && s[z + 1] == d[0]);
    assert(segment_scan(s, 0) == (Seq::<(int, int)>::empty(), 0int));
    lemma_scan_part(s, Seq::empty(), 0, x);
    let s1 = Seq::<(int, int)>::empty().push((0int, x));
    lemma_scan_part(s, s1, x + 1, y);
    let s2 = s1.push((x + 1, y));
    lemma_scan_part(s, s2, y + 1, z);
    let s3 = s2.push((y + 1, z));
    lemma_scan_tail(s, z + 1, s.len() as int);
    assert(kept_segment(s, z + 1, s.len() as int));
    assert(s3.push((z + 1, s.len() as int)) =~= seq![(0int, x), (x + 1, y), (y + 1, z), (z + 1, s.len() as int)]);
}

proof fn lemma_last_dot_dat(x: Seq<char>)
    ensures
        last_dot(x + seq!['.', 'D', 'A', 'T']) == Some(x.len() as int),
{
    let s4 = x + seq!['.', 'D', 'A', 'T'];
    let s3 = x + seq!['.', 'D', 'A'];
    let s2 = x + seq!['.', 'D'];
    let s1 = x + seq!['.'];
    assert(s4.drop_last() =~= s3);
    assert(s3.drop_last() =~= s2);
    assert(s2.drop_last() =~= s1);
    assert(s4.last() == 'T' && s3.last() == 'A' && s2.last() == 'D' && s1.last() == '.');
    assert(last_dot(s1) == Some(x.len() as int));
    assert(last_dot(s2) == last_dot(s1));
    assert(last_dot(s3) == last_dot(s2));
    assert(last_dot(s4) == last_dot(s3));
}

/// Whether no character of `s` is `.`.
pub open spec fn no_dot(s: Seq<char>) -> bool {
    forall|k: int| 0 <= k < s.len() ==> #[trigger] s[k] != '.'
}

/// The decimal digits of `n` read back as `n`.
proof fn lemma_parse_decimal_chars(n: nat)
    ensures
        parse_decimal_spec(decimal_chars(n)) == Some(n),
        no_dot(decimal_chars(n)),
        no_slash(decimal_chars(n)),
        decimal_chars(n).len() > 0,
        decimal_chars(n)[0] != '.',
{
    lemma_decimal(n);
    let d = decimal_chars(n);
    assert('0' <= d[0] <= '9');
    assert(decimal_digits(d) == d);
    assert(all_digits(d));
    assert forall|k: int| 0 <= k < d.len() implies #[trigger] d[k] != '.' by {
        assert('0' <= d[k] <= '9');
    }
    lemma_digits_plain(d);
}

/// The components of `<package>/<logical path>`: the package, the ROM
/// directory, the folder and the file.
proof fn lemma_logical_components(package: Seq<char>, p: DatPath)
    requires
        package.len() > 0,
        no_slash(package),
    ensures
        ({
            let s = package + seq!['/'] + logical_path_chars(p);
            &&& component_count(s) == 4
            &&& component(s, 1) == seq!['R', 'O', 'M'] + rom_suffix(p)
            &&& component(s, 2) == decimal_chars(p.folder_id as nat)
            &&& component(s, 3) == decimal_chars(p.file_id as nat) + seq!['.', 'D', 'A', 'T']
        }),
{
    lemma_logical_parts(p);
    lemma_parse_decimal_chars(p.folder_id as nat);
    lemma_parse_decimal_chars(p.file_id as nat);
    let rom = seq!['R', 'O', 'M'] + rom_suffix(p);
    let folder = decimal_chars(p.folder_id as nat);
    let digits = decimal_chars(p.file_id as nat);
    let file = digits + seq!['.', 'D', 'A', 'T'];
    let s = package + seq!['/'] + logical_path_chars(p);
    assert(s =~= package + seq!['/'] + rom + seq!['/'] + folder + seq!['/'] + file);
    assert forall|k: int| 0 <= k < file.len() implies #[trigger] file[k] != '/' by {
        if k < digits.len() {
            assert(file[k] == digits[k]);
        }
    }
    assert(file[0] == digits[0]);
    assert(rom[0] == 'R');
    lemma_four_segments(package, rom, folder, file);
    assert(s[0] == package[0]);
    assert(component(s, 1) =~= rom);
    assert(component(s, 2) =~= folder);
    assert(component(s, 3) =~= file);
}

/// The file component splits at its last `.` into the file number and `DAT`.
proof fn lemma_file_component(p: DatPath)
    ensures
        ({
            let digits = decimal_chars(p.file_id as nat);
            let file = digits + seq!['.', 'D', 'A', 'T'];
            &&& last_dot(file) == Some(digits.len() as int)
            &&& file.subrange(0, digits.len() as int) == digits
            &&& lower_chars(file.subrange(digits.len() + 1int, file.len() as int)) == seq!['d', 'a', 't']
        }),
{
    let digits = decimal_chars(p.file_id as nat);
    let file = digits + seq!['.', 'D', 'A', 'T'];
    lemma_last_dot_dat(digits);
    assert(file.subrange(0, digits.len() as int) =~= digits);
    let ext = file.subrange(digits.len() + 1int, file.len() as int);
    assert(ext =~= seq!['D', 'A', 'T']);
    assert(lower_chars(ext) =~= seq!['d', 'a', 't']);
}

/// The ROM component reads back as the ROM number.
proof fn lemma_rom_component(p: DatPath)
    ensures
        rom_id_spec(seq!['R', 'O', 'M'] + rom_suffix(p)) == Some(p.rom_id as nat),
{
    let rom = seq!['R', 'O', 'M'] + rom_suffix(p);
    lemma_parse_decimal_chars(p.rom_id as nat);
    assert(rom.subrange(0, 3) =~= seq!['R', 'O', 'M']);
    assert(upper_chars(seq!['R', 'O', 'M']) =~= seq!['R', 'O', 'M']);
    assert(has_rom_prefix(rom));
    if p.rom_id == 1 {
        assert(rom.len() == 3);
    } else {
        assert(rom.subrange(3, rom.len() as int) =~= decimal_chars(p.rom_id as nat));
    }
}

/// The path parser reads a package file `<package>/<logical path>` back to
/// its DAT path, whatever the (non-empty, slash-free) package name.
pub proof fn lemma_parse_logical_path(package: Seq<char>, p: DatPath)
    requires
        package.len() > 0,
        no_slash(package),
    ensures
        parse_dat_path_spec(package + seq!['/'] + logical_path_chars(p)) == Some(p),
{
    lemma_logical_components(package, p);
    lemma_file_component(p);
    lemma_rom_component(p);
    lemma_parse_decimal_chars(p.folder_id as nat);
    lemma_parse_decimal_chars(p.file_id as nat);
}

} // verus!
