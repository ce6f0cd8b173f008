use vstd::prelude::*;
use vstd::string::StringExecFns;
use crate::audit::{
    dat_error_message, round_trip_error, failed_recognized_file, kind_at, probe_spec, round_trip_spec, round_trip_verdict,
    unrecognized_file, difference_message, AuditStatus, DatAuditFile, FailureKind, FormatKind,
    FORMAT_COUNT,
};
use crate::error::DatError;

verus! {

/// The formats known for each DAT ID: IDs in increasing order, each with its
/// formats in declaration order and without repeats.
pub struct FormatsById {
    pub entries: Vec<(u32, Vec<FormatKind>)>,
}

/// Whether `s` lists formats in strictly increasing declaration order.
pub open spec fn ranks_increasing(s: Seq<FormatKind>) -> bool {
    forall|a: int, b: int| 0 <= a < b < s.len() ==> #[trigger] s[a].rank() < #[trigger] s[b].rank()
}

/// Whether the pair list maps `id` to `format`.
pub open spec fn pair_maps(pairs: Seq<(u32, FormatKind)>, id: u32, format: FormatKind) -> bool {
    exists|i: int| 0 <= i < pairs.len() && #[trigger] pairs[i] == (id, format)
}

/// Whether the pair list mentions `id`.
pub open spec fn pair_has_id(pairs: Seq<(u32, FormatKind)>, id: u32) -> bool {
    exists|i: int| 0 <= i < pairs.len() && #[trigger] pairs[i].0 == id
}

impl FormatsById {
    /// Whether the table maps `id` to `format`.
    pub open spec fn maps(&self, id: u32, format: FormatKind) -> bool {
        exists|j: int|
            0 <= j < self.entries@.len() && #[trigger] self.entries@[j].0 == id
                && self.entries@[j].1@.contains(format)
    }

    /// Whether the table has an entry for `id`.
    pub open spec fn has_id(&self, id: u32) -> bool {
        exists|j: int| 0 <= j < self.entries@.len() && #[trigger] self.entries@[j].0 == id
    }

    /// IDs strictly increasing, format lists strictly increasing and not empty.
    pub open spec fn well_formed(&self) -> bool {
        &&& forall|a: int, b: int|
            0 <= a < b < self.entries@.len() ==> #[trigger] self.entries@[a].0
                < #[trigger] self.entries@[b].0
        &&& forall|j: int|
            0 <= j < self.entries@.len() ==> ranks_increasing(#[trigger] self.entries@[j].1@)
                && self.entries@[j].1@.len() > 0
    }
}

/// The formats of the pairs with ID `id`, as a mask over declaration ranks.
fn id_mask(pairs: &[(u32, FormatKind)], id: u32) -> (mask: Vec<bool>)
    ensures
        mask@.len() == FORMAT_COUNT,
        forall|r: int| 0 <= r < FORMAT_COUNT ==> #[trigger] mask@[r] == pair_maps(pairs@, id, kind_at(r)),
{
    let mut mask: Vec<bool> = Vec::new();
    let mut r: usize = 0;
    while r < FORMAT_COUNT
        invariant
            r <= FORMAT_COUNT,
            mask@.len() == r,
            forall|k: int| 0 <= k < r ==> !#[trigger] mask@[k],
        decreases FORMAT_COUNT - r,
    {
        mask.push(false);
        r = r + 1;
    }
    let mut i: usize = 0;
    while i < pairs.len()
        invariant
            i <= pairs@.len(),
            mask@.len() == FORMAT_COUNT,
            forall|k: int|
                0 <= k < FORMAT_COUNT ==> #[trigger] mask@[k] == (exists|t: int|
                    0 <= t < i && #[trigger] pairs@[t] == (id, kind_at(k))),
        decreases pairs@.len() - i,
    {
        let (pid, f) = pairs[i];
        if pid == id {
            let k = f.index();
            mask.set(k, true);
            proof {
                assert(pairs@[i as int] == (id, kind_at(k as int)));
            }
        }
        proof {
            assert forall|k: int| 0 <= k < FORMAT_COUNT implies #[trigger] mask@[k] == (exists|t: int|
                0 <= t < i + 1 && #[trigger] pairs@[t] == (id, kind_at(k))) by {
                if pairs@[i as int] == (id, kind_at(k)) {
                    assert(f.rank() == k);
                }
            }
        }
        i = i + 1;
    }
    proof {
        assert forall|k: int| 0 <= k < FORMAT_COUNT implies #[trigger] mask@[k] == pair_maps(
            pairs@,
            id,
            kind_at(k),
        ) by {
            if pair_maps(pairs@, id, kind_at(k)) {
                let t = choose|t: int| 0 <= t < pairs@.len() && #[trigger] pairs@[t] == (id, kind_at(k));
                assert(pairs@[t] == (id, kind_at(k)));
            }
        }
    }
    mask
}

/// The formats whose mask entry is set, in declaration order.
fn formats_of_mask(mask: &Vec<bool>) -> (formats: Vec<FormatKind>)
    requires
        mask@.len() == FORMAT_COUNT,
    ensures
        ranks_increasing(formats@),
        forall|f: FormatKind| formats@.contains(f) <==> mask@[f.rank()],
{
    let mut formats: Vec<FormatKind> = Vec::new();
    let mut r: usize = 0;
    while r < FORMAT_COUNT
        invariant
            r <= FORMAT_COUNT,
            mask@.len() == FORMAT_COUNT,
            ranks_increasing(formats@),
            forall|t: int| 0 <= t < formats@.len() ==> #[trigger] formats@[t].rank() < r,
            forall|f: FormatKind| formats@.contains(f) <==> (f.rank() < r && mask@[f.rank()]),
        decreases FORMAT_COUNT - r,
    {
        if mask[r] {
            let f = FormatKind::from_index(r);
            let ghost old_formats = formats@;
            formats.push(f);
            proof {
                assert forall|g: FormatKind| formats@.contains(g) <==> (g.rank() < r + 1
                    && mask@[g.rank()]) by {
                    if g.rank() == r as int {
                        assert(kind_at(g.rank()) == g);
                        assert(formats@[formats@.len() - 1] == g);
                    }
                    if formats@.contains(g) && g != f {
                        let t = choose|t: int| 0 <= t < formats@.len() && formats@[t] == g;
                        assert(old_formats[t] == g);
                    }
                    if old_formats.contains(g) {
                        let t = choose|t: int| 0 <= t < old_formats.len() && old_formats[t] == g;
                        assert(formats@[t] == g);
                    }
                }
            }
        } else {
            proof {
                assert forall|g: FormatKind| formats@.contains(g) <==> (g.rank() < r + 1
                    && mask@[g.rank()]) by {
                    if formats@.contains(g) {
                        let t = choose|t: int| 0 <= t < formats@.len() && formats@[t] == g;
                        assert(formats@[t].rank() < r);
                    }
                }
            }
        }
        r = r + 1;
    }
    formats
}

/// Whether `entry` lists exactly the formats that the pairs give its ID, in
/// declaration order.
pub open spec fn entry_matches(pairs: Seq<(u32, FormatKind)>, entry: (u32, Vec<FormatKind>)) -> bool {
    &&& ranks_increasing(entry.1@)
    &&& entry.1@.len() > 0
    &&& pair_has_id(pairs, entry.0)
    &&& forall|f: FormatKind| entry.1@.contains(f) <==> pair_maps(pairs, entry.0, f)
}

/// Whether some entry has ID `id`.
pub open spec fn listed(entries: Seq<(u32, Vec<FormatKind>)>, id: u32) -> bool {
    exists|j: int| 0 <= j < entries.len() && #[trigger] entries[j].0 == id
}

/// Whether `id` is still to be listed after `last` (if anything was listed).
pub open spec fn after(started: bool, last: u32, id: u32) -> bool {
    !started || id > last
}

/// Groups the (ID, format) pairs by ID: each ID once, in increasing order,
/// with its formats sorted into declaration order and repeats removed.
pub fn known_formats_by_id(pairs: &[(u32, FormatKind)]) -> (table: FormatsById)
    ensures
        table.well_formed(),
        forall|id: u32| table.has_id(id) <==> pair_has_id(pairs@, id),
        forall|id: u32, f: FormatKind| table.maps(id, f) <==> pair_maps(pairs@, id, f),
{
    let mut entries: Vec<(u32, Vec<FormatKind>)> = Vec::new();
    let mut last: u32 = 0;
    let mut started: bool = false;
    loop
        invariant_except_break
            started == (entries@.len() > 0),
            started ==> entries@.last().0 == last,
            forall|a: int, b: int|
                0 <= a < b < entries@.len() ==> #[trigger] entries@[a].0 < #[trigger] entries@[b].0,
            forall|j: int| 0 <= j < entries@.len() ==> entry_matches(pairs@, #[trigger] entries@[j]),
            forall|i: int|
                0 <= i < pairs@.len() && started && #[trigger] pairs@[i].0 <= last ==> listed(entries@, pairs@[i].0),
        ensures
            (FormatsById { entries }).well_formed(),
            forall|j: int| 0 <= j < entries@.len() ==> entry_matches(pairs@, #[trigger] entries@[j]),
            forall|i: int| 0 <= i < pairs@.len() ==> listed(entries@, #[trigger] pairs@[i].0),
        decreases 0x1_0000_0000 - (if started { last + 1 } else { 0 }),
    {
        let mut best: u32 = 0;
        let mut found: bool = false;
        let mut i: usize = 0;
        while i < pairs.len()
            invariant
                i <= pairs@.len(),
                found ==> (started ==> best > last),
                found ==> exists|t: int| 0 <= t < pairs@.len() && #[trigger] pairs@[t].0 == best,
                forall|t: int|
                    0 <= t < i && after(started, last, #[trigger] pairs@[t].0) ==> found
                        && best <= pairs@[t].0,
            decreases pairs@.len() - i,
        {
            let id = pairs[i].0;
            if (!started || id > last) && (!found || id < best) {
                best = id;
                found = true;
            }
            i = i + 1;
        }
        if !found {
            assert(i == pairs@.len());
            proof {
                assert forall|t: int| 0 <= t < pairs@.len() implies listed(entries@, #[trigger] pairs@[t].0) by {
                    assert(0 <= t < i);
                    assert(after(started, last, pairs@[t].0) ==> found);
                    assert(started && pairs@[t].0 <= last);
                }
            }
            break;
        }
        let mask = id_mask(pairs, best);
        let formats = formats_of_mask(&mask);
        proof {
            let t = choose|t: int| 0 <= t < pairs@.len() && #[trigger] pairs@[t].0 == best;
            let f = pairs@[t].1;
            assert(pairs@[t] == (best, f));
            assert(pair_maps(pairs@, best, f));
            crate::audit::lemma_rank_kind(f, 0);
            assert(mask@[f.rank()]);
            assert(formats@.contains(f));
            assert forall|g: FormatKind| formats@.contains(g) <==> pair_maps(pairs@, best, g) by {
                crate::audit::lemma_rank_kind(g, 0);
            }
        }
        let ghost old_entries = entries@;
        entries.push((best, formats));
        proof {
            assert forall|i: int|
                0 <= i < pairs@.len() && #[trigger] pairs@[i].0 <= best implies listed(entries@, pairs@[i].0) by {
                if pairs@[i].0 == best {
                    assert(entries@[entries@.len() - 1].0 == pairs@[i].0);
                } else {
                    assert(after(started, last, pairs@[i].0) ==> best <= pairs@[i].0);
                    assert(started && pairs@[i].0 <= last);
                    assert(listed(old_entries, pairs@[i].0));
                    let j = choose|j: int| 0 <= j < old_entries.len() && #[trigger] old_entries[j].0 == pairs@[i].0;
                    assert(entries@[j].0 == pairs@[i].0);
                }
            }
        }
        last = best;
        started = true;
    }
    let table = FormatsById { entries };
    proof {
        assert forall|id: u32| table.has_id(id) <==> pair_has_id(pairs@, id) by {
            if pair_has_id(pairs@, id) {
                let i = choose|i: int| 0 <= i < pairs@.len() && #[trigger] pairs@[i].0 == id;
                assert(listed(table.entries@, pairs@[i].0));
            }
        }
        assert forall|id: u32, f: FormatKind| table.maps(id, f) <==> pair_maps(pairs@, id, f) by {
            if pair_maps(pairs@, id, f) {
                let i = choose|i: int| 0 <= i < pairs@.len() && #[trigger] pairs@[i] == (id, f);
                assert(pairs@[i].0 == id);
                assert(listed(table.entries@, pairs@[i].0));
                let j = choose|j: int| 0 <= j < table.entries@.len() && #[trigger] table.entries@[j].0 == id;
                assert(entry_matches(pairs@, table.entries@[j]));
                assert(table.entries@[j].1@.contains(f));
            }
        }
    }
    table
}


/// Number of set entries of `s`.
pub open spec fn count_true(s: Seq<bool>) -> nat
    decreases s.len(),
{
    if s.len() == 0 {
        0
    } else {
        count_true(s.drop_last()) + if s.last() {
            1nat
        } else {
            0nat
        }
    }
}

/// Index of the first set entry of `s`, if any.
pub open spec fn first_true(s: Seq<bool>) -> Option<int>
    decreases s.len(),
{
    if s.len() == 0 {
        None
    } else {
        match first_true(s.drop_last()) {
            Some(k) => Some(k),
            None => if s.last() {
                Some(s.len() - 1)
            } else {
                None
            },
        }
    }
}

/// Whether some ID of `ids` maps to `format` in the table.
pub open spec fn ids_map(table: FormatsById, ids: Seq<u32>, format: FormatKind) -> bool {
    exists|k: int| 0 <= k < ids.len() && table.maps(#[trigger] ids[k], format)
}

/// The formats that the IDs map to, as a mask over declaration ranks.
pub open spec fn mapped_mask(table: FormatsById, ids: Seq<u32>) -> Seq<bool> {
    Seq::new(FORMAT_COUNT as nat, |r: int| ids_map(table, ids, kind_at(r)))
}

/// Whether the probe of the format at rank `r` accepted the file; a probe
/// that was not given counts as a refusal.
pub open spec fn check_at(checks: Seq<bool>, r: int) -> bool {
    0 <= r < checks.len() && checks[r]
}

/// The format of a DAT known by the IDs `ids`, given whether the probe of
/// each format (by rank) accepted the file. One mapped format is taken as it
/// is; among several, the one probe that accepts decides, and none is chosen
/// when no probe or more than one accepts; with no mapped format, the first
/// accepting probe other than zone data's decides.
pub open spec fn detect_spec(table: FormatsById, ids: Seq<u32>, checks: Seq<bool>) -> Option<FormatKind> {
    let mask = mapped_mask(table, ids);
    if count_true(mask) == 1 {
        Some(kind_at(first_true(mask)->0))
    } else if count_true(mask) > 1 {
        let detected = Seq::new(FORMAT_COUNT as nat, |r: int| mask[r] && check_at(checks, r));
        if count_true(detected) == 1 {
            Some(kind_at(first_true(detected)->0))
        } else {
            None
        }
    } else {
        match first_true(Seq::new((FORMAT_COUNT - 1) as nat, |r: int| check_at(checks, r))) {
            Some(r) => Some(kind_at(r)),
            None => None,
        }
    }
}

/// A DAT whose IDs map to some format is only ever detected as one of the
/// formats they map to; and where they map to exactly one, that one is taken
/// whatever the probes say.
pub proof fn lemma_detect_within_mapped(
    table: FormatsById,
    ids: Seq<u32>,
    checks: Seq<bool>,
    other_checks: Seq<bool>,
)
    ensures
        count_true(mapped_mask(table, ids)) > 0 && detect_spec(table, ids, checks) is Some ==> ids_map(
            table,
            ids,
            detect_spec(table, ids, checks)->0,
        ),
        count_true(mapped_mask(table, ids)) == 1 ==> detect_spec(table, ids, checks) == detect_spec(
            table,
            ids,
            other_checks,
        ),
{
    let mask = mapped_mask(table, ids);
    lemma_first_true_bounds(mask);
    if count_true(mask) > 1 {
        let detected = Seq::new(FORMAT_COUNT as nat, |r: int| mask[r] && check_at(checks, r));
        lemma_first_true_bounds(detected);
        if count_true(detected) == 1 {
            let k = first_true(detected)->0;
            assert(detected[k]);
            assert(mask[k]);
        }
    } else if count_true(mask) == 1 {
        let k = first_true(mask)->0;
        assert(mask[k]);
    }
}

proof fn lemma_first_true_bounds(s: Seq<bool>)
    ensures
        count_true(s) > 0 <==> first_true(s) is Some,
        count_true(s) <= s.len(),
        first_true(s) matches Some(k) ==> 0 <= k < s.len() && s[k],
    decreases s.len(),
{
    if s.len() > 0 {
        lemma_first_true_bounds(s.drop_last());
    }
}

/// The count and the first index of the set entries of `s`.
fn scan_mask(s: &Vec<bool>) -> (r: (usize, Option<usize>))
    ensures
        r.0 == count_true(s@),
        match r.1 {
            Some(k) => first_true(s@) == Some(k as int),
            None => first_true(s@) is None,
        },
{
    let mut count: usize = 0;
    let mut first: Option<usize> = None;
    let mut i: usize = 0;
    while i < s.len()
        invariant
            i <= s@.len(),
            count == count_true(s@.subrange(0, i as int)),
            match first {
                Some(k) => first_true(s@.subrange(0, i as int)) == Some(k as int),
                None => first_true(s@.subrange(0, i as int)) is None,
            },
        decreases s@.len() - i,
    {
        proof {
            assert(s@.subrange(0, i + 1).drop_last() =~= s@.subrange(0, i as int));
            lemma_first_true_bounds(s@.subrange(0, i as int));
        }
        if s[i] {
            count = count + 1;
            if first.is_none() {
                first = Some(i);
            }
        }
        i = i + 1;
    }
    assert(s@.subrange(0, s@.len() as int) =~= s@);
    (count, first)
}

fn add_formats(mask: &mut Vec<bool>, formats: &Vec<FormatKind>)
    requires
        old(mask)@.len() == FORMAT_COUNT,
    ensures
        final(mask)@.len() == FORMAT_COUNT,
        forall|r: int| 0 <= r < FORMAT_COUNT ==> #[trigger] final(mask)@[r] == (old(mask)@[r]
            || formats@.contains(kind_at(r))),
{
    let ghost start = mask@;
    let mut t: usize = 0;
    while t < formats.len()
        invariant
            t <= formats@.len(),
            mask@.len() == FORMAT_COUNT,
            forall|r: int| 0 <= r < FORMAT_COUNT ==> #[trigger] mask@[r] == (start[r]
                || exists|u: int| 0 <= u < t && #[trigger] formats@[u] == kind_at(r)),
        decreases formats@.len() - t,
    {
        let f = formats[t];
        let k = f.index();
        mask.set(k, true);
        proof {
            assert forall|r: int| 0 <= r < FORMAT_COUNT implies #[trigger] mask@[r] == (start[r]
                || exists|u: int| 0 <= u < t + 1 && #[trigger] formats@[u] == kind_at(r)) by {
                crate::audit::lemma_rank_kind(f, r);
                if exists|u: int| 0 <= u < t + 1 && #[trigger] formats@[u] == kind_at(r) {
                    let u = choose|u: int| 0 <= u < t + 1 && #[trigger] formats@[u] == kind_at(r);
                    if u < t {
                        assert(exists|v: int| 0 <= v < t && #[trigger] formats@[v] == kind_at(r));
                    }
                }
                if r == k as int {
                    assert(formats@[t as int] == kind_at(r));
                }
            }
        }
        t = t + 1;
    }
}

fn add_id_formats(mask: &mut Vec<bool>, table: &FormatsById, id: u32)
    requires
        old(mask)@.len() == FORMAT_COUNT,
    ensures
        final(mask)@.len() == FORMAT_COUNT,
        forall|r: int| 0 <= r < FORMAT_COUNT ==> #[trigger] final(mask)@[r] == (old(mask)@[r]
            || table.maps(id, kind_at(r))),
{
    let ghost start = mask@;
    let mut j: usize = 0;
    while j < table.entries.len()
        invariant
            j <= table.entries@.len(),
            mask@.len() == FORMAT_COUNT,
            forall|r: int| 0 <= r < FORMAT_COUNT ==> #[trigger] mask@[r] == (start[r]
                || exists|u: int| 0 <= u < j && #[trigger] table.entries@[u].0 == id
                    && table.entries@[u].1@.contains(kind_at(r))),
        decreases table.entries@.len() - j,
    {
        if table.entries[j].0 == id {
            add_formats(mask, &table.entries[j].1);
        }
        proof {
            assert forall|r: int| 0 <= r < FORMAT_COUNT implies #[trigger] mask@[r] == (start[r]
                || exists|u: int| 0 <= u < j + 1 && #[trigger] table.entries@[u].0 == id
                    && table.entries@[u].1@.contains(kind_at(r))) by {
                if exists|u: int| 0 <= u < j + 1 && #[trigger] table.entries@[u].0 == id
                    && table.entries@[u].1@.contains(kind_at(r)) {
                    let u = choose|u: int| 0 <= u < j + 1 && #[trigger] table.entries@[u].0 == id
                        && table.entries@[u].1@.contains(kind_at(r));
                    if u < j {
                        assert(exists|v: int| 0 <= v < j && #[trigger] table.entries@[v].0 == id
                            && table.entries@[v].1@.contains(kind_at(r)));
                    }
                }
            }
        }
        j = j + 1;
    }
}

/// Picks the format of a DAT known by the IDs `ids`. `checks[r]` says
/// whether the probe of the format of rank `r` accepted the file.
pub fn detect_format(ids: &[u32], table: &FormatsById, checks: &[bool]) -> (format: Option<FormatKind>)
    ensures
        format == detect_spec(*table, ids@, checks@),
{
    let mut mask: Vec<bool> = Vec::new();
    let mut r: usize = 0;
    while r < FORMAT_COUNT
        invariant
            r <= FORMAT_COUNT,
            mask@.len() == r,
            forall|q: int| 0 <= q < r ==> !#[trigger] mask@[q],
        decreases FORMAT_COUNT - r,
    {
        mask.push(false);
        r = r + 1;
    }
    let mut k: usize = 0;
    while k < ids.len()
        invariant
            k <= ids@.len(),
            mask@.len() == FORMAT_COUNT,
            forall|q: int| 0 <= q < FORMAT_COUNT ==> #[trigger] mask@[q] == (exists|u: int|
                0 <= u < k && table.maps(#[trigger] ids@[u], kind_at(q))),
        decreases ids@.len() - k,
    {
        add_id_formats(&mut mask, table, ids[k]);
        proof {
            assert forall|q: int| 0 <= q < FORMAT_COUNT implies #[trigger] mask@[q] == (exists|u: int|
                0 <= u < k + 1 && table.maps(#[trigger] ids@[u], kind_at(q))) by {
                if exists|u: int| 0 <= u < k + 1 && table.maps(#[trigger] ids@[u], kind_at(q)) {
                    let u = choose|u: int| 0 <= u < k + 1 && table.maps(#[trigger] ids@[u], kind_at(q));
                    if u < k {
                        assert(exists|v: int| 0 <= v < k && table.maps(#[trigger] ids@[v], kind_at(q)));
                    }
                }
            }
        }
        k = k + 1;
    }
    assert(mask@ =~= mapped_mask(*table, ids@));
    let (count, first) = scan_mask(&mask);
    proof {
        lemma_first_true_bounds(mask@);
    }
    if count == 1 {
        let f = first.unwrap();
        return Some(FormatKind::from_index(f));
    }
    if count > 1 {
        let mut detected: Vec<bool> = Vec::new();
        let mut q: usize = 0;
        while q < FORMAT_COUNT
            invariant
                q <= FORMAT_COUNT,
                mask@.len() == FORMAT_COUNT,
                detected@.len() == q,
                forall|p: int| 0 <= p < q ==> #[trigger] detected@[p] == (mask@[p] && check_at(checks@, p)),
            decreases FORMAT_COUNT - q,
        {
            let c = q < checks.len() && checks[q];
            detected.push(mask[q] && c);
            q = q + 1;
        }
        assert(detected@ =~= Seq::new(FORMAT_COUNT as nat, |p: int| mask@[p] && check_at(checks@, p)));
        let (dcount, dfirst) = scan_mask(&detected);
        proof {
            lemma_first_true_bounds(detected@);
        }
        if dcount == 1 {
            return Some(FormatKind::from_index(dfirst.unwrap()));
        }
        return None;
    }
    let mut probes: Vec<bool> = Vec::new();
    let mut q: usize = 0;
    while q < FORMAT_COUNT - 1
        invariant
            q <= FORMAT_COUNT - 1,
            probes@.len() == q,
            forall|p: int| 0 <= p < q ==> #[trigger] probes@[p] == check_at(checks@, p),
        decreases FORMAT_COUNT - 1 - q,
    {
        let c = q < checks.len() && checks[q];
        probes.push(c);
        q = q + 1;
    }
    assert(probes@ =~= Seq::new((FORMAT_COUNT - 1) as nat, |p: int| check_at(checks@, p)));
    let (_pcount, pfirst) = scan_mask(&probes);
    proof {
        lemma_first_true_bounds(probes@);
    }
    match pfirst {
        Some(p) => Some(FormatKind::from_index(p)),
        None => None,
    }
}


/// The answers of every format's probe on `b`, in declaration order.
pub open spec fn probes_spec(b: Seq<u8>) -> Seq<bool> {
    Seq::new(FORMAT_COUNT as nat, |r: int| probe_spec(kind_at(r), b))
}

/// Runs every format's probe on `bytes`, in declaration order.
pub fn probe_all(bytes: &[u8]) -> (checks: Vec<bool>)
    ensures
        checks@ == probes_spec(bytes@),
{
    let mut checks: Vec<bool> = Vec::new();
    let mut r: usize = 0;
    while r < FORMAT_COUNT
        invariant
            r <= FORMAT_COUNT,
            checks@ =~= probes_spec(bytes@).subrange(0, r as int),
        decreases FORMAT_COUNT - r,
    {
        let kind = FormatKind::from_index(r);
        checks.push(kind.check_bytes(bytes));
        r = r + 1;
    }
    checks
}

/// What an audit reports of a format that has no codec in this library.
pub open spec fn no_codec_message() -> Seq<char> {
    "no codec for this format in this library"@
}

/// The audit of a DAT read from disk: its format is detected from the IDs
/// that map to it and the probes, and a recognised DAT must come back
/// unchanged from a round trip through its codec.
pub fn audit_bytes(id: u32, path: String, ids: &[u32], table: &FormatsById, bytes: &[u8]) -> (file: DatAuditFile)
    ensures
        file.id == id,
        file.path@ == path@,
        match detect_spec(*table, ids@, probes_spec(bytes@)) {
            None => file.status == AuditStatus::Unrecognized && file.format is None && file.failure_kind is None
                && file.error is None,
            Some(f) => (file.format matches Some(name) && name@ == f.name_chars()) && match round_trip_spec(
                f,
                bytes@,
            ) {
                None => file.status == AuditStatus::Failed && file.failure_kind == Some(FailureKind::Parse)
                    && (file.error matches Some(e) && e@ == no_codec_message()),
                Some(Err(kind)) => file.status == AuditStatus::Failed && file.failure_kind == Some(kind)
                    && (file.error matches Some(e) && e@ == dat_error_message(round_trip_error(f, bytes@, kind))),
                Some(Ok(out)) => if out == bytes@ {
                    file.status == AuditStatus::Passed && file.failure_kind is None && file.error is None
                } else {
                    file.status == AuditStatus::Failed && file.failure_kind == Some(FailureKind::RoundTrip)
                        && (file.error matches Some(e) && e@ == difference_message(bytes@, out))
                },
            },
        },
{
    let checks = probe_all(bytes);
    let format = match detect_format(ids, table, &checks) {
        None => return unrecognized_file(id, path),
        Some(f) => f,
    };
    match format.round_trip(bytes) {
        None => failed_recognized_file(
            id,
            path,
            format,
            FailureKind::Parse,
            String::from_str("no codec for this format in this library"),
        ),
        Some(Err(e)) => failed_recognized_file(id, path, format, e.kind, e.message),
        Some(Ok(encoded)) => round_trip_verdict(id, path, format, bytes, &encoded),
    }
}

} // verus!
