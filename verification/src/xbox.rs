use vstd::prelude::*;
use vstd::string::StringExecFns;
use vstd::hash_map::{HashMapWithView, StringHashMap};
use crate::dat_path::{
    base_package_chars, base_package_name, dat_path_key, lemma_key_injective, logical_path_chars,
    missing_package_chars, package_name_chars, spec_xbox_package_index, xbox_missing_package_name,
    xbox_package_index, xbox_package_name, DatPath,
};
use crate::order::{lemma_multiset_map, sort_by_key, sort_by_num, sorted_by_key, sorted_by_num, NumKey, SortKey};
use crate::text::{ascii_lowercase, lower_chars, str_equal};
use crate::audit::{kind_at, AuditStatus, DatAuditFile, FailureKind, FormatKind, FORMAT_COUNT};

verus! {

broadcast use vstd::seq_lib::group_to_multiset_ensures, vstd::multiset::group_multiset_axioms;

/// The table IDs that share one logical DAT path.
#[derive(Clone, Debug)]
pub struct XboxMapping {
    pub dat_path: DatPath,
    pub ids: Vec<u32>,
}

/// The IDs of the pairs with path `p`, in the order of the pairs.
pub open spec fn ids_at(pairs: Seq<(u32, DatPath)>, p: DatPath) -> Seq<u32>
    decreases pairs.len(),
{
    if pairs.len() == 0 {
        Seq::empty()
    } else if pairs.last().1 == p {
        ids_at(pairs.drop_last(), p).push(pairs.last().0)
    } else {
        ids_at(pairs.drop_last(), p)
    }
}

/// Whether some pair has path `p`.
pub open spec fn has_path(pairs: Seq<(u32, DatPath)>, p: DatPath) -> bool {
    exists|i: int| 0 <= i < pairs.len() && #[trigger] pairs[i].1 == p
}

/// Whether some mapping has path `p`.
pub open spec fn mapping_listed(ms: Seq<XboxMapping>, p: DatPath) -> bool {
    exists|j: int| 0 <= j < ms.len() && #[trigger] ms[j].dat_path == p
}

pub open spec fn ids_sorted(s: Seq<u32>) -> bool {
    forall|a: int, b: int| 0 <= a < b < s.len() ==> #[trigger] s[a] <= #[trigger] s[b]
}

/// Sorts IDs into increasing order.
fn sort_ids(v: Vec<u32>) -> (r: Vec<u32>)
    ensures
        ids_sorted(r@),
        r@.to_multiset() == v@.to_multiset(),
{
    let mut out: Vec<u32> = Vec::new();
    let mut i: usize = 0;
    while i < v.len()
        invariant
            i <= v@.len(),
            ids_sorted(out@),
            out@.to_multiset() == v@.subrange(0, i as int).to_multiset(),
        decreases v@.len() - i,
    {
        let x = v[i];
        let mut pos: usize = 0;
        while pos < out.len()
            invariant
                pos <= out@.len(),
                forall|a: int| 0 <= a < pos ==> #[trigger] out@[a] <= x,
            ensures
                pos <= out@.len(),
                forall|a: int| 0 <= a < pos ==> #[trigger] out@[a] <= x,
                pos < out@.len() ==> x < out@[pos as int],
            decreases out@.len() - pos,
        {
            if x < out[pos] {
                break;
            }
            pos = pos + 1;
        }
        let ghost before = out@;
        out.insert(pos, x);
        proof {
            vstd::seq_lib::to_multiset_insert(before, pos as int, x);
            assert(v@.subrange(0, i + 1) =~= v@.subrange(0, i as int).push(x));
            assert forall|a: int, b: int| 0 <= a < b < out@.len() implies #[trigger] out@[a]
                <= #[trigger] out@[b] by {
                if b < pos {
                    assert(out@[a] == before[a] && out@[b] == before[b]);
                } else if b == pos {
                    assert(out@[a] == before[a]);
                } else if a == pos {
                    assert(out@[b] == before[b - 1]);
                    assert(before[pos as int] <= before[b - 1]);
                } else if a < pos {
                    assert(out@[a] == before[a] && out@[b] == before[b - 1]);
                } else {
                    assert(out@[a] == before[a - 1] && out@[b] == before[b - 1]);
                }
            }
        }
        i = i + 1;
    }
    assert(v@.subrange(0, v@.len() as int) =~= v@);
    out
}

/// The IDs of the pairs with path `p`, in the order of the pairs.
fn collect_ids(pairs: &[(u32, DatPath)], p: DatPath) -> (r: Vec<u32>)
    ensures
        r@ == ids_at(pairs@, p),
{
    let mut r: Vec<u32> = Vec::new();
    let mut i: usize = 0;
    while i < pairs.len()
        invariant
            i <= pairs@.len(),
            r@ == ids_at(pairs@.subrange(0, i as int), p),
        decreases pairs@.len() - i,
    {
        assert(pairs@.subrange(0, i + 1).drop_last() =~= pairs@.subrange(0, i as int));
        if pairs[i].1 == p {
            r.push(pairs[i].0);
        }
        i = i + 1;
    }
    assert(pairs@.subrange(0, pairs@.len() as int) =~= pairs@);
    r
}

/// Whether `m` holds the IDs of path `m.dat_path`, sorted.
pub open spec fn mapping_matches(pairs: Seq<(u32, DatPath)>, m: XboxMapping) -> bool {
    &&& has_path(pairs, m.dat_path)
    &&& ids_sorted(m.ids@)
    &&& m.ids@.to_multiset() == ids_at(pairs, m.dat_path).to_multiset()
}

/// Groups table IDs by the DAT path they resolve to: one mapping per path,
/// paths in increasing order, each with its IDs sorted.
pub fn group_xbox_mappings(pairs: &[(u32, DatPath)]) -> (ms: Vec<XboxMapping>)
    ensures
        forall|a: int, b: int|
            0 <= a < b < ms@.len() ==> dat_path_key(#[trigger] ms@[a].dat_path) < dat_path_key(
                #[trigger] ms@[b].dat_path,
            ),
        forall|j: int| 0 <= j < ms@.len() ==> mapping_matches(pairs@, #[trigger] ms@[j]),
        forall|p: DatPath| has_path(pairs@, p) ==> mapping_listed(ms@, p),
{
    let mut ms: Vec<XboxMapping> = Vec::new();
    let mut last: u64 = 0;
    let mut started: bool = false;
    loop
        invariant_except_break
            started == (ms@.len() > 0),
            started ==> dat_path_key(ms@.last().dat_path) == last,
            forall|a: int, b: int|
                0 <= a < b < ms@.len() ==> dat_path_key(#[trigger] ms@[a].dat_path) < dat_path_key(
                    #[trigger] ms@[b].dat_path,
                ),
            forall|j: int| 0 <= j < ms@.len() ==> mapping_matches(pairs@, #[trigger] ms@[j]),
            forall|i: int|
                0 <= i < pairs@.len() && started && dat_path_key(#[trigger] pairs@[i].1) <= last
                    ==> mapping_listed(ms@, pairs@[i].1),
            last <= 0xff_ffff_ffff,
        ensures
            forall|a: int, b: int|
                0 <= a < b < ms@.len() ==> dat_path_key(#[trigger] ms@[a].dat_path) < dat_path_key(
                    #[trigger] ms@[b].dat_path,
                ),
            forall|j: int| 0 <= j < ms@.len() ==> mapping_matches(pairs@, #[trigger] ms@[j]),
            forall|i: int| 0 <= i < pairs@.len() ==> mapping_listed(ms@, #[trigger] pairs@[i].1),
        decreases 0x100_0000_0000 - (if started { last + 1 } else { 0 }),
    {
        let mut best: u64 = 0;
        let mut best_path: DatPath = DatPath { rom_id: 0, folder_id: 0, file_id: 0 };
        let mut found: bool = false;
        let mut i: usize = 0;
        while i < pairs.len()
            invariant
                i <= pairs@.len(),
                found ==> best == dat_path_key(best_path) && (started ==> best > last)
                    && has_path(pairs@, best_path),
                forall|t: int|
                    0 <= t < i && (!started || dat_path_key(#[trigger] pairs@[t].1) > last) ==> found
                        && best <= dat_path_key(pairs@[t].1),
            decreases pairs@.len() - i,
        {
            let p = pairs[i].1;
            let k = p.key();
            if (!started || k > last) && (!found || k < best) {
                best = k;
                best_path = p;
                found = true;
                assert(pairs@[i as int].1 == p);
            }
            i = i + 1;
        }
        if !found {
            proof {
                assert forall|t: int| 0 <= t < pairs@.len() implies mapping_listed(
                    ms@,
                    #[trigger] pairs@[t].1,
                ) by {
                    assert(0 <= t < i);
                }
            }
            break;
        }
        let ids = collect_ids(pairs, best_path);
        let sorted = sort_ids(ids);
        let ghost old_ms = ms@;
        ms.push(XboxMapping { dat_path: best_path, ids: sorted });
        proof {
            assert(mapping_matches(pairs@, ms@[ms@.len() - 1]));
            assert forall|t: int|
                0 <= t < pairs@.len() && dat_path_key(#[trigger] pairs@[t].1) <= best implies mapping_listed(
                ms@,
                pairs@[t].1,
            ) by {
                lemma_key_injective(pairs@[t].1, best_path);
                if dat_path_key(pairs@[t].1) == best {
                    assert(ms@[ms@.len() - 1].dat_path == pairs@[t].1);
                } else {
                    assert(0 <= t < i);
                    assert(mapping_listed(old_ms, pairs@[t].1));
                    let j = choose|j: int| 0 <= j < old_ms.len() && #[trigger] old_ms[j].dat_path == pairs@[t].1;
                    assert(ms@[j].dat_path == pairs@[t].1);
                }
            }
        }
        last = best;
        started = true;
    }
    proof {
        assert forall|p: DatPath| has_path(pairs@, p) implies mapping_listed(ms@, p) by {
            let i = choose|i: int| 0 <= i < pairs@.len() && #[trigger] pairs@[i].1 == p;
            assert(mapping_listed(ms@, pairs@[i].1));
        }
    }
    ms
}


/// A DAT file found in a package directory.
#[derive(Clone, Debug)]
pub struct XboxPackageCandidate {
    pub package: String,
    pub dat_path: DatPath,
    pub physical_path: String,
}

/// A package file as reported: its package, logical path and physical path.
#[derive(Clone, Debug)]
pub struct XboxPackageFile {
    pub package: String,
    pub logical_path: String,
    pub physical_path: String,
}

/// A mapped DAT path that no package holds.
#[derive(Clone, Debug)]
pub struct XboxMappingReference {
    pub logical_path: String,
    pub ids: Vec<u32>,
    pub package: String,
    pub expected_path: String,
}

pub open spec fn file_view(f: XboxPackageFile) -> (Seq<char>, Seq<char>, Seq<char>) {
    (f.package@, f.logical_path@, f.physical_path@)
}

pub open spec fn file_views(s: Seq<XboxPackageFile>) -> Seq<(Seq<char>, Seq<char>, Seq<char>)> {
    s.map_values(|f: XboxPackageFile| file_view(f))
}

pub open spec fn reference_view(r: XboxMappingReference) -> (Seq<char>, Seq<u32>, Seq<char>, Seq<char>) {
    (r.logical_path@, r.ids@, r.package@, r.expected_path@)
}

pub open spec fn reference_views(s: Seq<XboxMappingReference>) -> Seq<(Seq<char>, Seq<u32>, Seq<char>, Seq<char>)> {
    s.map_values(|r: XboxMappingReference| reference_view(r))
}

/// The report entry of a candidate.
pub open spec fn candidate_file(c: XboxPackageCandidate) -> (Seq<char>, Seq<char>, Seq<char>) {
    (c.package@, logical_path_chars(c.dat_path), c.physical_path@)
}

impl SortKey for XboxPackageCandidate {
    open spec fn sort_key(&self) -> Seq<char> {
        self.physical_path@
    }

    fn key_str(&self) -> (s: &str) {
        self.physical_path.as_str()
    }
}

/// The view of a candidate: its package, DAT path and physical path.
pub open spec fn candidate_view(c: XboxPackageCandidate) -> (Seq<char>, DatPath, Seq<char>) {
    (c.package@, c.dat_path, c.physical_path@)
}

/// Orders the package candidates by physical path, keeping what they hold.
pub fn sort_candidates(candidates: Vec<XboxPackageCandidate>) -> (r: Vec<XboxPackageCandidate>)
    ensures
        sorted_by_key(r@),
        r@.map_values(|c: XboxPackageCandidate| candidate_view(c)).to_multiset() == candidates@.map_values(
            |c: XboxPackageCandidate| candidate_view(c),
        ).to_multiset(),
{
    let ghost before = candidates@;
    let r = sort_by_key(candidates);
    proof {
        lemma_multiset_map(r@, before, |c: XboxPackageCandidate| candidate_view(c));
    }
    r
}

impl SortKey for XboxPackageFile {
    open spec fn sort_key(&self) -> Seq<char> {
        self.physical_path@
    }

    fn key_str(&self) -> (s: &str) {
        self.physical_path.as_str()
    }
}

impl SortKey for XboxMappingReference {
    open spec fn sort_key(&self) -> Seq<char> {
        self.logical_path@
    }

    fn key_str(&self) -> (s: &str) {
        self.logical_path.as_str()
    }
}

/// `package/path`.
pub open spec fn joined(package: Seq<char>, path: Seq<char>) -> Seq<char> {
    package + seq!['/'] + path
}

fn join_path(package: &str, path: &str) -> (r: String)
    ensures
        r@ == joined(package@, path@),
{
    let mut r = String::from_str(package);
    proof {
        reveal_strlit("/");
    }
    r.append("/");
    r.append(path);
    r
}

/// The report entry of a candidate: its package, logical and physical paths.
pub fn package_file(candidate: &XboxPackageCandidate) -> (f: XboxPackageFile)
    ensures
        file_view(f) == candidate_file(*candidate),
{
    XboxPackageFile {
        package: candidate.package.clone(),
        logical_path: candidate.dat_path.logical_path(),
        physical_path: candidate.physical_path.clone(),
    }
}

/// Candidates by lower-cased physical path; a later candidate replaces an
/// earlier one with the same key.
pub open spec fn path_index(cs: Seq<XboxPackageCandidate>) -> Map<Seq<char>, usize>
    decreases cs.len(),
{
    if cs.len() == 0 {
        Map::empty()
    } else {
        path_index(cs.drop_last()).insert(
            lower_chars(cs.last().physical_path@),
            (cs.len() - 1) as usize,
        )
    }
}

proof fn lemma_path_index_bounds(cs: Seq<XboxPackageCandidate>, k: Seq<char>)
    ensures
        path_index(cs).contains_key(k) ==> path_index(cs)[k] < cs.len(),
    decreases cs.len(),
{
    if cs.len() > 0 {
        lemma_path_index_bounds(cs.drop_last(), k);
    }
}

/// Indexes the candidates by lower-cased physical path.
pub fn candidates_by_path(candidates: &[XboxPackageCandidate]) -> (index: StringHashMap<usize>)
    ensures
        index@ == path_index(candidates@),
{
    let mut index: StringHashMap<usize> = StringHashMap::new();
    let mut i: usize = 0;
    while i < candidates.len()
        invariant
            i <= candidates@.len(),
            index@ == path_index(candidates@.subrange(0, i as int)),
        decreases candidates@.len() - i,
    {
        assert(candidates@.subrange(0, i + 1).drop_last() =~= candidates@.subrange(0, i as int));
        let key = ascii_lowercase(candidates[i].physical_path.as_str());
        index.insert(key, i);
        i = i + 1;
    }
    assert(candidates@.subrange(0, candidates@.len() as int) =~= candidates@);
    index
}

/// Where the mounted package of `dat_path` would hold it, lower-cased.
pub open spec fn preferred_key(p: DatPath) -> Seq<char> {
    lower_chars(joined(package_name_chars(spec_xbox_package_index(p)), logical_path_chars(p)))
}

/// Where the base package would hold `dat_path`, lower-cased.
pub open spec fn fallback_key(p: DatPath) -> Seq<char> {
    lower_chars(joined(base_package_chars(), logical_path_chars(p)))
}

/// The candidate the client mounts for `p`: the one in the package slot of
/// the path; for slot zero, failing that, the one in the base package.
pub open spec fn select_spec(p: DatPath, index: Map<Seq<char>, usize>) -> Option<usize> {
    if index.contains_key(preferred_key(p)) {
        Some(index[preferred_key(p)])
    } else if spec_xbox_package_index(p) == 0 && index.contains_key(fallback_key(p)) {
        Some(index[fallback_key(p)])
    } else {
        None
    }
}

/// Picks the candidate the client mounts for `dat_path`, by its index.
pub fn select_xbox_candidate(dat_path: DatPath, index: &StringHashMap<usize>) -> (r: Option<usize>)
    ensures
        r == select_spec(dat_path, index@),
{
    let logical = dat_path.logical_path();
    let slot = xbox_package_index(dat_path);
    let package = xbox_package_name(slot);
    let preferred = ascii_lowercase(join_path(package, logical.as_str()).as_str());
    match index.get(preferred.as_str()) {
        Some(i) => {
            return Some(*i);
        },
        None => {},
    }
    if slot == 0 {
        let fallback = ascii_lowercase(join_path(base_package_name(), logical.as_str()).as_str());
        match index.get(fallback.as_str()) {
            Some(i) => Some(*i),
            None => None,
        }
    } else {
        None
    }
}


/// What the client mounts and what it leaves unused, each list sorted by its
/// path.
pub struct XboxClassification {
    pub selected_dats: Vec<XboxPackageFile>,
    pub missing_mapped_paths: Vec<XboxMappingReference>,
    pub unreferenced_selected_dats: Vec<XboxPackageFile>,
    pub non_selected_mounted_shadow_dats: Vec<XboxPackageFile>,
    pub r000100_unmounted_dats: Vec<XboxPackageFile>,
}

/// The mounted DAT of each mapping that has one, in mapping order.
pub open spec fn selected_entries(ms: Seq<XboxMapping>, cs: Seq<XboxPackageCandidate>) -> Seq<(Seq<char>, Seq<char>, Seq<char>)>
    decreases ms.len(),
{
    if ms.len() == 0 {
        Seq::empty()
    } else {
        let rest = selected_entries(ms.drop_last(), cs);
        match select_spec(ms.last().dat_path, path_index(cs)) {
            Some(i) => rest.push(candidate_file(cs[i as int])),
            None => rest,
        }
    }
}

/// The report of a mapping whose DAT no package holds: where it was expected.
pub open spec fn missing_reference(m: XboxMapping) -> (Seq<char>, Seq<u32>, Seq<char>, Seq<char>) {
    (
        logical_path_chars(m.dat_path),
        m.ids@,
        missing_package_chars(m.dat_path),
        joined(missing_package_chars(m.dat_path), logical_path_chars(m.dat_path)),
    )
}

/// The mappings whose DAT is not mounted, in mapping order.
pub open spec fn missing_entries(ms: Seq<XboxMapping>, cs: Seq<XboxPackageCandidate>) -> Seq<(Seq<char>, Seq<u32>, Seq<char>, Seq<char>)>
    decreases ms.len(),
{
    if ms.len() == 0 {
        Seq::empty()
    } else {
        let rest = missing_entries(ms.drop_last(), cs);
        match select_spec(ms.last().dat_path, path_index(cs)) {
            Some(i) => rest,
            None => rest.push(missing_reference(ms.last())),
        }
    }
}

/// Whether the candidate mounted for `p` has physical path `phys`.
pub open spec fn mounts(p: DatPath, cs: Seq<XboxPackageCandidate>, phys: Seq<char>) -> bool {
    match select_spec(p, path_index(cs)) {
        Some(i) => cs[i as int].physical_path@ == phys,
        None => false,
    }
}

/// Whether a mapping mounts the candidate at physical path `phys`.
pub open spec fn mounted_for_mapping(ms: Seq<XboxMapping>, cs: Seq<XboxPackageCandidate>, phys: Seq<char>) -> bool {
    exists|k: int| 0 <= k < ms.len() && mounts(#[trigger] ms[k].dat_path, cs, phys)
}

/// How a candidate that no mapping mounts is reported: 0 when a mapping
/// mounts it, 1 when it sits in package slot zero, 2 when it is the mounted
/// copy of an unmapped path, 3 when another copy shadows it or its path is
/// mapped.
pub open spec fn candidate_class(ms: Seq<XboxMapping>, cs: Seq<XboxPackageCandidate>, c: XboxPackageCandidate) -> int {
    if mounted_for_mapping(ms, cs, c.physical_path@) {
        0
    } else if c.package@ == package_name_chars(0) {
        1
    } else if !mapping_listed(ms, c.dat_path) && (match select_spec(c.dat_path, path_index(cs)) {
        Some(j) => cs[j as int].physical_path@ == c.physical_path@,
        None => false,
    }) {
        2
    } else {
        3
    }
}

/// The candidates of `prefix` in class `class`, in candidate order.
pub open spec fn class_entries(
    ms: Seq<XboxMapping>,
    cs: Seq<XboxPackageCandidate>,
    prefix: Seq<XboxPackageCandidate>,
    class: int,
) -> Seq<(Seq<char>, Seq<char>, Seq<char>)>
    decreases prefix.len(),
{
    if prefix.len() == 0 {
        Seq::empty()
    } else {
        let rest = class_entries(ms, cs, prefix.drop_last(), class);
        if candidate_class(ms, cs, prefix.last()) == class {
            rest.push(candidate_file(prefix.last()))
        } else {
            rest
        }
    }
}

fn copy_ids(ids: &Vec<u32>) -> (r: Vec<u32>)
    ensures
        r@ == ids@,
{
    let mut r: Vec<u32> = Vec::new();
    let mut i: usize = 0;
    while i < ids.len()
        invariant
            i <= ids@.len(),
            r@ == ids@.subrange(0, i as int),
        decreases ids@.len() - i,
    {
        r.push(ids[i]);
        assert(r@ =~= ids@.subrange(0, i + 1));
        i = i + 1;
    }
    assert(ids@.subrange(0, ids@.len() as int) =~= ids@);
    r
}

proof fn lemma_push_files(s: Seq<XboxPackageFile>, f: XboxPackageFile)
    ensures
        file_views(s.push(f)) == file_views(s).push(file_view(f)),
{
    assert(file_views(s.push(f)) =~= file_views(s).push(file_view(f)));
}

proof fn lemma_push_references(s: Seq<XboxMappingReference>, r: XboxMappingReference)
    ensures
        reference_views(s.push(r)) == reference_views(s).push(reference_view(r)),
{
    assert(reference_views(s.push(r)) =~= reference_views(s).push(reference_view(r)));
}

/// Sorts report entries by physical path, keeping what they hold.
fn sort_files(v: Vec<XboxPackageFile>) -> (r: Vec<XboxPackageFile>)
    ensures
        sorted_by_key(r@),
        file_views(r@).to_multiset() == file_views(v@).to_multiset(),
{
    let ghost before = v@;
    let r = sort_by_key(v);
    proof {
        lemma_multiset_map(r@, before, |f: XboxPackageFile| file_view(f));
    }
    r
}

/// Sorts missing-path reports by logical path, keeping what they hold.
fn sort_references(v: Vec<XboxMappingReference>) -> (r: Vec<XboxMappingReference>)
    ensures
        sorted_by_key(r@),
        reference_views(r@).to_multiset() == reference_views(v@).to_multiset(),
{
    let ghost before = v@;
    let r = sort_by_key(v);
    proof {
        lemma_multiset_map(r@, before, |x: XboxMappingReference| reference_view(x));
    }
    r
}

/// Whether some mapping among the first `n` has a path with key `k`.
pub open spec fn key_listed(ms: Seq<XboxMapping>, n: int, k: u64) -> bool {
    exists|j: int| 0 <= j < n && dat_path_key(#[trigger] ms[j].dat_path) == k
}

/// Sorts the package candidates into what the client mounts for the mapped
/// paths, the mapped paths no package holds, and the candidates it leaves
/// unused; every list is sorted by its path.
pub fn classify_xbox_candidates(
    mappings: &[XboxMapping],
    candidates: &[XboxPackageCandidate],
) -> (r: XboxClassification)
    ensures
        sorted_by_key(r.selected_dats@),
        file_views(r.selected_dats@).to_multiset() == selected_entries(mappings@, candidates@).to_multiset(),
        sorted_by_key(r.missing_mapped_paths@),
        reference_views(r.missing_mapped_paths@).to_multiset() == missing_entries(mappings@, candidates@).to_multiset(),
        sorted_by_key(r.r000100_unmounted_dats@),
        file_views(r.r000100_unmounted_dats@).to_multiset() == class_entries(
            mappings@,
            candidates@,
            candidates@,
            1,
        ).to_multiset(),
        sorted_by_key(r.unreferenced_selected_dats@),
        file_views(r.unreferenced_selected_dats@).to_multiset() == class_entries(
            mappings@,
            candidates@,
            candidates@,
            2,
        ).to_multiset(),
        sorted_by_key(r.non_selected_mounted_shadow_dats@),
        file_views(r.non_selected_mounted_shadow_dats@).to_multiset() == class_entries(
            mappings@,
            candidates@,
            candidates@,
            3,
        ).to_multiset(),
{
    broadcast use vstd::std_specs::hash::axiom_u64_obeys_hash_table_key_model;

    let ghost ms = mappings@;
    let ghost cs = candidates@;
    let index = candidates_by_path(candidates);
    let mut mapped: HashMapWithView<u64, bool> = HashMapWithView::new();
    let mut i: usize = 0;
    while i < mappings.len()
        invariant
            i <= ms.len(),
            ms == mappings@,
            forall|k: u64| mapped@.contains_key(k) <==> key_listed(ms, i as int, k),
        decreases ms.len() - i,
    {
        mapped.insert(mappings[i].dat_path.key(), true);
        proof {
            assert forall|k: u64| mapped@.contains_key(k) <==> key_listed(ms, i + 1, k) by {
                if key_listed(ms, i + 1, k) {
                    let j = choose|j: int| 0 <= j < i + 1 && dat_path_key(#[trigger] ms[j].dat_path) == k;
                    if j < i {
                        assert(key_listed(ms, i as int, k));
                    }
                }
                if key_listed(ms, i as int, k) {
                    let j = choose|j: int| 0 <= j < i && dat_path_key(#[trigger] ms[j].dat_path) == k;
                    assert(0 <= j < i + 1);
                }
            }
        }
        i = i + 1;
    }
    let mut selected_paths: StringHashMap<bool> = StringHashMap::new();
    let mut selected: Vec<XboxPackageFile> = Vec::new();
    let mut missing: Vec<XboxMappingReference> = Vec::new();
    let mut k: usize = 0;
    while k < mappings.len()
        invariant
            k <= ms.len(),
            ms == mappings@,
            cs == candidates@,
            index@ == path_index(cs),
            file_views(selected@) == selected_entries(ms.subrange(0, k as int), cs),
            reference_views(missing@) == missing_entries(ms.subrange(0, k as int), cs),
            forall|phys: Seq<char>| selected_paths@.contains_key(phys) <==> mounted_for_mapping(
                ms.subrange(0, k as int),
                cs,
                phys,
            ),
        decreases ms.len() - k,
    {
        let ghost pre = ms.subrange(0, k as int);
        let ghost next = ms.subrange(0, k + 1);
        assert(next.drop_last() =~= pre);
        let p = mappings[k].dat_path;
        match select_xbox_candidate(p, &index) {
            Some(c) => {
                proof {
                    lemma_path_index_bounds(cs, preferred_key(p));
                    lemma_path_index_bounds(cs, fallback_key(p));
                }
                let ghost before = selected@;
                selected_paths.insert(candidates[c].physical_path.clone(), true);
                selected.push(package_file(&candidates[c]));
                proof {
                    lemma_push_files(before, selected@.last());
                    assert(selected@ =~= before.push(selected@.last()));
                    assert forall|phys: Seq<char>| selected_paths@.contains_key(phys) <==> mounted_for_mapping(next, cs, phys) by {
                        if mounted_for_mapping(next, cs, phys) {
                            let j = choose|j: int| 0 <= j < next.len() && mounts(#[trigger] next[j].dat_path, cs, phys);
                            if j < k {
                                assert(pre[j] == next[j]);
                                assert(mounted_for_mapping(pre, cs, phys));
                            }
                        }
                        if mounted_for_mapping(pre, cs, phys) {
                            let j = choose|j: int| 0 <= j < pre.len() && mounts(#[trigger] pre[j].dat_path, cs, phys);
                            assert(pre[j] == next[j]);
                        }
                        if phys == cs[c as int].physical_path@ {
                            assert(next[k as int] == mappings@[k as int]);
                        }
                    }
                }
            },
            None => {
                let logical = p.logical_path();
                let package = xbox_missing_package_name(p);
                let ghost before = missing@;
                missing.push(
                    XboxMappingReference {
                        logical_path: p.logical_path(),
                        ids: copy_ids(&mappings[k].ids),
                        package: String::from_str(package),
                        expected_path: join_path(package, logical.as_str()),
                    },
                );
                proof {
                    lemma_push_references(before, missing@.last());
                    assert(missing@ =~= before.push(missing@.last()));
                    assert forall|phys: Seq<char>| selected_paths@.contains_key(phys) <==> mounted_for_mapping(next, cs, phys) by {
                        if mounted_for_mapping(next, cs, phys) {
                            let j = choose|j: int| 0 <= j < next.len() && mounts(#[trigger] next[j].dat_path, cs, phys);
                            assert(j != k);
                            assert(pre[j] == next[j]);
                            assert(mounted_for_mapping(pre, cs, phys));
                        }
                        if mounted_for_mapping(pre, cs, phys) {
                            let j = choose|j: int| 0 <= j < pre.len() && mounts(#[trigger] pre[j].dat_path, cs, phys);
                            assert(pre[j] == next[j]);
                        }
                    }
                }
            },
        }
        k = k + 1;
    }
    assert(ms.subrange(0, ms.len() as int) =~= ms);
    let mut unreferenced: Vec<XboxPackageFile> = Vec::new();
    let mut shadows: Vec<XboxPackageFile> = Vec::new();
    let mut unmounted: Vec<XboxPackageFile> = Vec::new();
    let mut t: usize = 0;
    while t < candidates.len()
        invariant
            t <= cs.len(),
            ms == mappings@,
            cs == candidates@,
            index@ == path_index(cs),
            forall|k: u64| mapped@.contains_key(k) <==> key_listed(ms, ms.len() as int, k),
            forall|phys: Seq<char>| selected_paths@.contains_key(phys) <==> mounted_for_mapping(ms, cs, phys),
            file_views(unmounted@) == class_entries(ms, cs, cs.subrange(0, t as int), 1),
            file_views(unreferenced@) == class_entries(ms, cs, cs.subrange(0, t as int), 2),
            file_views(shadows@) == class_entries(ms, cs, cs.subrange(0, t as int), 3),
        decreases cs.len() - t,
    {
        let ghost pre = cs.subrange(0, t as int);
        let ghost next = cs.subrange(0, t + 1);
        assert(next.drop_last() =~= pre);
        let c = &candidates[t];
        assert(next.last() == *c);
        if selected_paths.contains_key(c.physical_path.as_str()) {
            t = t + 1;
            continue;
        }
        if crate::text::str_equal(c.package.as_str(), xbox_package_name(0)) {
            let ghost before = unmounted@;
            unmounted.push(package_file(c));
            proof {
                lemma_push_files(before, unmounted@.last());
                assert(unmounted@ =~= before.push(unmounted@.last()));
            }
            t = t + 1;
            continue;
        }
        let is_selected = match select_xbox_candidate(c.dat_path, &index) {
            Some(j) => {
                proof {
                    lemma_path_index_bounds(cs, preferred_key(c.dat_path));
                    lemma_path_index_bounds(cs, fallback_key(c.dat_path));
                }
                crate::text::str_equal(candidates[j].physical_path.as_str(), c.physical_path.as_str())
            },
            None => false,
        };
        let is_mapped = mapped.contains_key(&c.dat_path.key());
        proof {
            if is_mapped {
                let j = choose|j: int| 0 <= j < ms.len() && dat_path_key(#[trigger] ms[j].dat_path) == dat_path_key(c.dat_path);
                lemma_key_injective(ms[j].dat_path, c.dat_path);
            }
            if mapping_listed(ms, c.dat_path) {
                let j = choose|j: int| 0 <= j < ms.len() && #[trigger] ms[j].dat_path == c.dat_path;
                assert(key_listed(ms, ms.len() as int, dat_path_key(c.dat_path) as u64));
            }
        }
        if !is_mapped && is_selected {
            let ghost before = unreferenced@;
            unreferenced.push(package_file(c));
            proof {
                lemma_push_files(before, unreferenced@.last());
                assert(unreferenced@ =~= before.push(unreferenced@.last()));
            }
        } else {
            let ghost before = shadows@;
            shadows.push(package_file(c));
            proof {
                lemma_push_files(before, shadows@.last());
                assert(shadows@ =~= before.push(shadows@.last()));
            }
        }
        t = t + 1;
    }
    assert(cs.subrange(0, cs.len() as int) =~= cs);
    XboxClassification {
        selected_dats: sort_files(selected),
        missing_mapped_paths: sort_references(missing),
        unreferenced_selected_dats: sort_files(unreferenced),
        non_selected_mounted_shadow_dats: sort_files(shadows),
        r000100_unmounted_dats: sort_files(unmounted),
    }
}


/// The audit of one mapped DAT path.
#[derive(Clone, Debug)]
pub struct XboxMappingResult {
    pub logical_path: String,
    pub ids: Vec<u32>,
    pub package: String,
    pub selected_path: Option<String>,
    pub status: AuditStatus,
    pub format: Option<String>,
    pub failure_kind: Option<FailureKind>,
    pub error: Option<String>,
}

/// Totals of one format over the mounted DATs.
#[derive(Clone, Debug)]
pub struct XboxFormatResult {
    pub format: String,
    pub selected: usize,
    pub recognized: usize,
    pub round_trip_ok: usize,
    pub failed: usize,
}

/// Whether the result is of a mounted DAT recognised as the format named `name`.
pub open spec fn counts_as(m: XboxMappingResult, name: Seq<char>) -> bool {
    m.selected_path is Some && (m.format matches Some(f) && f@ == name)
}

/// Number of results that count as the format named `name` and, when
/// `status` is given, have that status.
pub open spec fn format_count(ms: Seq<XboxMappingResult>, name: Seq<char>, status: Option<AuditStatus>) -> nat
    decreases ms.len(),
{
    if ms.len() == 0 {
        0
    } else {
        format_count(ms.drop_last(), name, status) + if counts_as(ms.last(), name) && (match status {
            Some(st) => ms.last().status == st,
            None => true,
        }) {
            1nat
        } else {
            0nat
        }
    }
}

/// Number of mounted DATs whose format was not recognised.
pub open spec fn unrecognized_count(ms: Seq<XboxMappingResult>) -> nat
    decreases ms.len(),
{
    if ms.len() == 0 {
        0
    } else {
        unrecognized_count(ms.drop_last()) + if ms.last().selected_path is Some && ms.last().format is None
            && ms.last().status == AuditStatus::Unrecognized {
            1nat
        } else {
            0nat
        }
    }
}

proof fn lemma_format_counts_bounded(ms: Seq<XboxMappingResult>, name: Seq<char>, status: Option<AuditStatus>)
    ensures
        format_count(ms, name, status) <= ms.len(),
        unrecognized_count(ms) <= ms.len(),
    decreases ms.len(),
{
    if ms.len() > 0 {
        lemma_format_counts_bounded(ms.drop_last(), name, status);
    }
}

proof fn lemma_names_distinct(a: int, b: int)
    requires
        0 <= a < FORMAT_COUNT,
        0 <= b < FORMAT_COUNT,
        a != b,
    ensures
        kind_at(a).name_chars() != kind_at(b).name_chars(),
{
    reveal_strlit("auto_translate");
    reveal_strlit("dialog");
    reveal_strlit("dmsg_table");
    reveal_strlit("entity_names");
    reveal_strlit("events");
    reveal_strlit("furniture_data");
    reveal_strlit("item_info_table");
    reveal_strlit("menu_table");
    reveal_strlit("merit_category_table");
    reveal_strlit("merit_table");
    reveal_strlit("status_info_table");
    reveal_strlit("string_table");
    reveal_strlit("xi_string_table");
    reveal_strlit("zone_data");
    assert(kind_at(a).name_chars().len() != kind_at(b).name_chars().len() || kind_at(a).name_chars()[0]
        != kind_at(b).name_chars()[0] || kind_at(a).name_chars()[1] != kind_at(b).name_chars()[1]
        || kind_at(a).name_chars()[4] != kind_at(b).name_chars()[4]);
}

/// The rank of the format named `name`, if one is.
fn format_rank_of(name: &str) -> (r: Option<usize>)
    ensures
        match r {
            Some(k) => k < FORMAT_COUNT && kind_at(k as int).name_chars() == name@,
            None => forall|k: int| 0 <= k < FORMAT_COUNT ==> kind_at(k).name_chars() != name@,
        },
{
    let mut k: usize = 0;
    while k < FORMAT_COUNT
        invariant
            k <= FORMAT_COUNT,
            forall|q: int| 0 <= q < k ==> kind_at(q).name_chars() != name@,
        decreases FORMAT_COUNT - k,
    {
        if str_equal(FormatKind::from_index(k).name(), name) {
            return Some(k);
        }
        k = k + 1;
    }
    None
}

/// Whether the counters hold, for each format, the totals over `ms`.
pub open spec fn counters_match(selected: Seq<usize>, passed: Seq<usize>, failed: Seq<usize>, ms: Seq<XboxMappingResult>) -> bool {
    &&& selected.len() == FORMAT_COUNT
    &&& passed.len() == FORMAT_COUNT
    &&& failed.len() == FORMAT_COUNT
    &&& forall|q: int|
        0 <= q < FORMAT_COUNT ==> #[trigger] selected[q] == format_count(ms, kind_at(q).name_chars(), None)
            && passed[q] == format_count(ms, kind_at(q).name_chars(), Some(AuditStatus::Passed))
            && failed[q] == format_count(ms, kind_at(q).name_chars(), Some(AuditStatus::Failed))
}

/// Per-format totals over the mounted DATs, one entry per format in
/// declaration order, then one for the DATs no format recognised.
pub fn summarize_xbox_formats(mappings: &[XboxMappingResult]) -> (results: Vec<XboxFormatResult>)
    ensures
        results@.len() == FORMAT_COUNT + 1,
        forall|k: int|
            0 <= k < FORMAT_COUNT ==> {
                let r = #[trigger] results@[k];
                let name = kind_at(k).name_chars();
                &&& r.format@ == name
                &&& r.selected == format_count(mappings@, name, None)
                &&& r.recognized == format_count(mappings@, name, None)
                &&& r.round_trip_ok == format_count(mappings@, name, Some(AuditStatus::Passed))
                &&& r.failed == format_count(mappings@, name, Some(AuditStatus::Failed))
            },
        results@[FORMAT_COUNT as int].format@ == "unrecognized"@,
        results@[FORMAT_COUNT as int].selected == unrecognized_count(mappings@),
        results@[FORMAT_COUNT as int].recognized == 0,
        results@[FORMAT_COUNT as int].round_trip_ok == 0,
        results@[FORMAT_COUNT as int].failed == 0,
{
    let ghost ms = mappings@;
    let mut selected: Vec<usize> = Vec::new();
    let mut passed: Vec<usize> = Vec::new();
    let mut failed: Vec<usize> = Vec::new();
    let mut k: usize = 0;
    while k < FORMAT_COUNT
        invariant
            k <= FORMAT_COUNT,
            selected@.len() == k,
            passed@.len() == k,
            failed@.len() == k,
            forall|q: int| 0 <= q < k ==> #[trigger] selected@[q] == 0 && passed@[q] == 0 && failed@[q] == 0,
        decreases FORMAT_COUNT - k,
    {
        selected.push(0);
        passed.push(0);
        failed.push(0);
        k = k + 1;
    }
    let mut unrecognized: usize = 0;
    let mut i: usize = 0;
    assert(ms.subrange(0, 0) =~= Seq::<XboxMappingResult>::empty());
    while i < mappings.len()
        invariant
            i <= ms.len(),
            ms == mappings@,
            selected@.len() == FORMAT_COUNT,
            passed@.len() == FORMAT_COUNT,
            failed@.len() == FORMAT_COUNT,
            counters_match(selected@, passed@, failed@, ms.subrange(0, i as int)),
            unrecognized == unrecognized_count(ms.subrange(0, i as int)),
        decreases ms.len() - i,
    {
        let ghost pre = ms.subrange(0, i as int);
        let ghost next = ms.subrange(0, i + 1);
        assert(next.drop_last() =~= pre);
        let m = &mappings[i];
        assert(next.last() == *m);
        let ghost sel0 = selected@;
        let ghost pas0 = passed@;
        let ghost fai0 = failed@;
        proof {
            lemma_format_counts_bounded(pre, seq![], None);
        }
        if m.selected_path.is_some() {
            match &m.format {
                None => {
                    if m.status == AuditStatus::Unrecognized {
                        unrecognized = unrecognized + 1;
                    }
                },
                Some(name) => {
                    match format_rank_of(name.as_str()) {
                        Some(q) => {
                            proof {
                                lemma_format_counts_bounded(pre, name@, None);
                                lemma_format_counts_bounded(pre, name@, Some(AuditStatus::Passed));
                                lemma_format_counts_bounded(pre, name@, Some(AuditStatus::Failed));
                            }
                            let v = selected[q];
                            selected.set(q, v + 1);
                            if m.status == AuditStatus::Passed {
                                let v = passed[q];
                                passed.set(q, v + 1);
                            }
                            if m.status == AuditStatus::Failed {
                                let v = failed[q];
                                failed.set(q, v + 1);
                            }
                            proof {
                                assert forall|p: int| 0 <= p < FORMAT_COUNT && p != q implies kind_at(p).name_chars() != name@ by {
                                    lemma_names_distinct(p, q as int);
                                }
                            }
                        },
                        None => {},
                    }
                },
            }
        }
        proof {
            assert forall|q: int| 0 <= q < FORMAT_COUNT implies #[trigger] selected@[q] == format_count(
                next,
                kind_at(q).name_chars(),
                None,
            ) && passed@[q] == format_count(next, kind_at(q).name_chars(), Some(AuditStatus::Passed))
                && failed@[q] == format_count(next, kind_at(q).name_chars(), Some(AuditStatus::Failed)) by {
                assert(sel0[q] == format_count(pre, kind_at(q).name_chars(), None));
                assert(pas0[q] == format_count(pre, kind_at(q).name_chars(), Some(AuditStatus::Passed)));
                assert(fai0[q] == format_count(pre, kind_at(q).name_chars(), Some(AuditStatus::Failed)));
            }
            assert(counters_match(selected@, passed@, failed@, next));
        }
        i = i + 1;
    }
    assert(ms.subrange(0, ms.len() as int) =~= ms);
    let mut results: Vec<XboxFormatResult> = Vec::new();
    let mut k: usize = 0;
    while k < FORMAT_COUNT
        invariant
            k <= FORMAT_COUNT,
            ms == mappings@,
            selected@.len() == FORMAT_COUNT,
            passed@.len() == FORMAT_COUNT,
            failed@.len() == FORMAT_COUNT,
            counters_match(selected@, passed@, failed@, ms),
            results@.len() == k,
            forall|q: int|
                0 <= q < k ==> {
                    let r = #[trigger] results@[q];
                    let name = kind_at(q).name_chars();
                    &&& r.format@ == name
                    &&& r.selected == format_count(ms, name, None)
                    &&& r.recognized == format_count(ms, name, None)
                    &&& r.round_trip_ok == format_count(ms, name, Some(AuditStatus::Passed))
                    &&& r.failed == format_count(ms, name, Some(AuditStatus::Failed))
                },
        decreases FORMAT_COUNT - k,
    {
        results.push(
            XboxFormatResult {
                format: String::from_str(FormatKind::from_index(k).name()),
                selected: selected[k],
                recognized: selected[k],
                round_trip_ok: passed[k],
                failed: failed[k],
            },
        );
        k = k + 1;
    }
    results.push(
        XboxFormatResult {
            format: String::from_str("unrecognized"),
            selected: unrecognized,
            recognized: 0,
            round_trip_ok: 0,
            failed: 0,
        },
    );
    results
}


/// Whether the client can use a mapped table DAT.
#[derive(Clone, Copy, Debug, PartialEq, Eq, Structural)]
pub enum XboxClientMappingStatus {
    Selected,
    Missing,
    Absent,
}

/// Where a table ID that a format is known for lives on the client.
#[derive(Clone, Debug)]
pub struct XboxClientFormatMapping {
    pub id: u32,
    pub format: String,
    pub logical_path: Option<String>,
    pub package: Option<String>,
    pub selected_path: Option<String>,
    pub status: XboxClientMappingStatus,
}

pub open spec fn opt_view(o: Option<String>) -> Option<Seq<char>> {
    match o {
        Some(s) => Some(s@),
        None => None,
    }
}

pub open spec fn client_view(x: XboxClientFormatMapping) -> (
    u32,
    Seq<char>,
    Option<Seq<char>>,
    Option<Seq<char>>,
    Option<Seq<char>>,
    XboxClientMappingStatus,
) {
    (x.id, x.format@, opt_view(x.logical_path), opt_view(x.package), opt_view(x.selected_path), x.status)
}

/// Table IDs to DAT paths; a later pair replaces an earlier one with the same ID.
pub open spec fn id_index(pairs: Seq<(u32, DatPath)>) -> Map<u32, DatPath>
    decreases pairs.len(),
{
    if pairs.len() == 0 {
        Map::empty()
    } else {
        id_index(pairs.drop_last()).insert(pairs.last().0, pairs.last().1)
    }
}

/// Mounted files by logical path; a later file replaces an earlier one.
pub open spec fn logical_index(files: Seq<XboxPackageFile>) -> Map<Seq<char>, usize>
    decreases files.len(),
{
    if files.len() == 0 {
        Map::empty()
    } else {
        logical_index(files.drop_last()).insert(files.last().logical_path@, (files.len() - 1) as usize)
    }
}

proof fn lemma_logical_index_bounds(files: Seq<XboxPackageFile>, k: Seq<char>)
    ensures
        logical_index(files).contains_key(k) ==> logical_index(files)[k] < files.len(),
    decreases files.len(),
{
    if files.len() > 0 {
        lemma_logical_index_bounds(files.drop_last(), k);
    }
}

/// Where table `id`, known as format `format`, lives on the client: absent
/// when no table maps it; else its logical path, and the mounted file of
/// that path if there is one, or the package where it was expected.
pub open spec fn expected_client(
    id: u32,
    format: FormatKind,
    ids: Map<u32, DatPath>,
    files: Seq<XboxPackageFile>,
) -> (u32, Seq<char>, Option<Seq<char>>, Option<Seq<char>>, Option<Seq<char>>, XboxClientMappingStatus) {
    if !ids.contains_key(id) {
        (id, format.name_chars(), None, None, None, XboxClientMappingStatus::Absent)
    } else {
        let p = ids[id];
        let logical = logical_path_chars(p);
        let index = logical_index(files);
        if index.contains_key(logical) {
            let f = files[index[logical] as int];
            (
                id,
                format.name_chars(),
                Some(logical),
                Some(f.package@),
                Some(f.physical_path@),
                XboxClientMappingStatus::Selected,
            )
        } else {
            (
                id,
                format.name_chars(),
                Some(logical),
                Some(missing_package_chars(p)),
                None,
                XboxClientMappingStatus::Missing,
            )
        }
    }
}

/// Where each (table ID, format) pair lives on the client, in the order of
/// the pairs.
pub fn project_client_format_mappings(
    format_mappings: &[(u32, FormatKind)],
    id_map: &[(u32, DatPath)],
    selected_files: &[XboxPackageFile],
) -> (r: Vec<XboxClientFormatMapping>)
    ensures
        r@.len() == format_mappings@.len(),
        forall|k: int|
            0 <= k < r@.len() ==> client_view(#[trigger] r@[k]) == expected_client(
                format_mappings@[k].0,
                format_mappings@[k].1,
                id_index(id_map@),
                selected_files@,
            ),
        forall|k: int|
            0 <= k < r@.len() ==> (#[trigger] r@[k]).id == format_mappings@[k].0 && r@[k].format@
                == format_mappings@[k].1.name_chars(),
        forall|k: int|
            0 <= k < r@.len() ==> ((#[trigger] r@[k]).status == XboxClientMappingStatus::Absent <==> !id_index(
                id_map@,
            ).contains_key(format_mappings@[k].0)),
        forall|k: int|
            0 <= k < r@.len() && (#[trigger] r@[k]).status == XboxClientMappingStatus::Absent ==> r@[k].logical_path
                is None && r@[k].package is None && r@[k].selected_path is None,
        forall|k: int|
            0 <= k < r@.len() && (#[trigger] r@[k]).status != XboxClientMappingStatus::Absent ==> opt_view(
                r@[k].logical_path,
            ) == Some(logical_path_chars(id_index(id_map@)[format_mappings@[k].0])) && (r@[k].status
                == XboxClientMappingStatus::Selected <==> logical_index(selected_files@).contains_key(
                logical_path_chars(id_index(id_map@)[format_mappings@[k].0]),
            )) && (r@[k].status == XboxClientMappingStatus::Missing ==> r@[k].selected_path is None
                && opt_view(r@[k].package) == Some(missing_package_chars(id_index(id_map@)[format_mappings@[k].0]))),
{
    broadcast use vstd::std_specs::hash::axiom_u32_obeys_hash_table_key_model;

    let mut ids: HashMapWithView<u32, DatPath> = HashMapWithView::new();
    let mut i: usize = 0;
    while i < id_map.len()
        invariant
            i <= id_map@.len(),
            ids@ == id_index(id_map@.subrange(0, i as int)),
        decreases id_map@.len() - i,
    {
        assert(id_map@.subrange(0, i + 1).drop_last() =~= id_map@.subrange(0, i as int));
        ids.insert(id_map[i].0, id_map[i].1);
        i = i + 1;
    }
    assert(id_map@.subrange(0, id_map@.len() as int) =~= id_map@);
    let mut files: StringHashMap<usize> = StringHashMap::new();
    let mut j: usize = 0;
    while j < selected_files.len()
        invariant
            j <= selected_files@.len(),
            files@ == logical_index(selected_files@.subrange(0, j as int)),
        decreases selected_files@.len() - j,
    {
        assert(selected_files@.subrange(0, j + 1).drop_last() =~= selected_files@.subrange(0, j as int));
        files.insert(selected_files[j].logical_path.clone(), j);
        j = j + 1;
    }
    assert(selected_files@.subrange(0, selected_files@.len() as int) =~= selected_files@);
    let mut r: Vec<XboxClientFormatMapping> = Vec::new();
    let mut k: usize = 0;
    while k < format_mappings.len()
        invariant
            k <= format_mappings@.len(),
            ids@ == id_index(id_map@),
            files@ == logical_index(selected_files@),
            r@.len() == k,
            forall|q: int|
                0 <= q < k ==> client_view(#[trigger] r@[q]) == expected_client(
                    format_mappings@[q].0,
                    format_mappings@[q].1,
                    id_index(id_map@),
                    selected_files@,
                ),
        decreases format_mappings@.len() - k,
    {
        let (id, format) = format_mappings[k];
        let name = String::from_str(format.name());
        let entry = match ids.get(&id) {
            None => XboxClientFormatMapping {
                id,
                format: name,
                logical_path: None,
                package: None,
                selected_path: None,
                status: XboxClientMappingStatus::Absent,
            },
            Some(p) => {
                let logical = p.logical_path();
                match files.get(logical.as_str()) {
                    Some(f) => {
                        proof {
                            lemma_logical_index_bounds(selected_files@, logical@);
                        }
                        let file = &selected_files[*f];
                        XboxClientFormatMapping {
                            id,
                            format: name,
                            logical_path: Some(logical),
                            package: Some(file.package.clone()),
                            selected_path: Some(file.physical_path.clone()),
                            status: XboxClientMappingStatus::Selected,
                        }
                    },
                    None => XboxClientFormatMapping {
                        id,
                        format: name,
                        logical_path: Some(logical),
                        package: Some(String::from_str(xbox_missing_package_name(*p))),
                        selected_path: None,
                        status: XboxClientMappingStatus::Missing,
                    },
                }
            },
        };
        r.push(entry);
        k = k + 1;
    }
    r
}


/// A table ID and the logical path it resolves to.
#[derive(Clone, Debug)]
pub struct XboxMappedId {
    pub id: u32,
    pub logical_path: String,
}

impl NumKey for XboxMappedId {
    open spec fn num_key(&self) -> u128 {
        self.id as u128
    }

    fn key_num(&self) -> (k: u128) {
        self.id as u128
    }
}

pub open spec fn mapped_id_view(x: XboxMappedId) -> (u32, Seq<char>) {
    (x.id, x.logical_path@)
}

/// Every (ID, logical path) pair of the mappings, mapping by mapping.
pub open spec fn flat_ids(ms: Seq<XboxMapping>) -> Seq<(u32, Seq<char>)>
    decreases ms.len(),
{
    if ms.len() == 0 {
        Seq::empty()
    } else {
        flat_ids(ms.drop_last()) + ms.last().ids@.map_values(
            |id: u32| (id, logical_path_chars(ms.last().dat_path)),
        )
    }
}

/// Every table ID with its logical path, sorted by ID.
pub fn xbox_mapped_ids(mappings: &[XboxMapping]) -> (r: Vec<XboxMappedId>)
    ensures
        sorted_by_num(r@),
        r@.map_values(|x: XboxMappedId| mapped_id_view(x)).to_multiset() == flat_ids(mappings@).to_multiset(),
{
    let mut flat: Vec<XboxMappedId> = Vec::new();
    let mut k: usize = 0;
    while k < mappings.len()
        invariant
            k <= mappings@.len(),
            flat@.map_values(|x: XboxMappedId| mapped_id_view(x)) == flat_ids(mappings@.subrange(0, k as int)),
        decreases mappings@.len() - k,
    {
        let m = &mappings[k];
        let ghost start = flat@;
        let ghost logical = logical_path_chars(m.dat_path);
        let mut j: usize = 0;
        while j < m.ids.len()
            invariant
                j <= m.ids@.len(),
                logical == logical_path_chars(m.dat_path),
                flat@.map_values(|x: XboxMappedId| mapped_id_view(x)) == start.map_values(|x: XboxMappedId| mapped_id_view(x))
                    + m.ids@.subrange(0, j as int).map_values(|id: u32| (id, logical)),
            decreases m.ids@.len() - j,
        {
            let ghost before = flat@;
            let id = m.ids[j];
            let path = m.dat_path.logical_path();
            flat.push(XboxMappedId { id, logical_path: path });
            proof {
                let f = |x: XboxMappedId| mapped_id_view(x);
                let g = |id: u32| (id, logical);
                let a = start.map_values(f);
                let b = m.ids@.subrange(0, j as int).map_values(g);
                assert(mapped_id_view(flat@.last()) == (id, logical));
                assert(flat@.map_values(f) =~= before.map_values(f).push((id, logical)));
                assert(m.ids@.subrange(0, j + 1).map_values(g) =~= b.push((id, logical)));
                assert((a + b).push((id, logical)) =~= a + b.push((id, logical)));
            }
            j = j + 1;
        }
        assert(m.ids@.subrange(0, m.ids@.len() as int) =~= m.ids@);
        assert(mappings@.subrange(0, k + 1).drop_last() =~= mappings@.subrange(0, k as int));
        assert(mappings@.subrange(0, k + 1).last() == *m);
        k = k + 1;
    }
    assert(mappings@.subrange(0, mappings@.len() as int) =~= mappings@);
    let ghost before = flat@;
    let r = sort_by_num(flat);
    proof {
        lemma_multiset_map(r@, before, |x: XboxMappedId| mapped_id_view(x));
    }
    r
}

/// A logical path that several table IDs resolve to.
#[derive(Clone, Debug)]
pub struct XboxDuplicateMapping {
    pub logical_path: String,
    pub ids: Vec<u32>,
}

pub open spec fn duplicate_view(d: XboxDuplicateMapping) -> (Seq<char>, Seq<u32>) {
    (d.logical_path@, d.ids@)
}

/// The mappings with more than one ID, as (logical path, IDs), in order.
pub open spec fn duplicates_of(ms: Seq<XboxMapping>) -> Seq<(Seq<char>, Seq<u32>)>
    decreases ms.len(),
{
    if ms.len() == 0 {
        Seq::empty()
    } else if ms.last().ids@.len() > 1 {
        duplicates_of(ms.drop_last()).push((logical_path_chars(ms.last().dat_path), ms.last().ids@))
    } else {
        duplicates_of(ms.drop_last())
    }
}

/// The logical paths that several table IDs resolve to.
pub fn xbox_duplicate_mappings(mappings: &[XboxMapping]) -> (r: Vec<XboxDuplicateMapping>)
    ensures
        r@.map_values(|d: XboxDuplicateMapping| duplicate_view(d)) == duplicates_of(mappings@),
{
    let mut r: Vec<XboxDuplicateMapping> = Vec::new();
    let mut k: usize = 0;
    while k < mappings.len()
        invariant
            k <= mappings@.len(),
            r@.map_values(|d: XboxDuplicateMapping| duplicate_view(d)) == duplicates_of(mappings@.subrange(0, k as int)),
        decreases mappings@.len() - k,
    {
        let m = &mappings[k];
        assert(mappings@.subrange(0, k + 1).drop_last() =~= mappings@.subrange(0, k as int));
        assert(mappings@.subrange(0, k + 1).last() == *m);
        if m.ids.len() > 1 {
            let ghost before = r@;
            r.push(XboxDuplicateMapping { logical_path: m.dat_path.logical_path(), ids: copy_ids(&m.ids) });
            assert(r@.map_values(|d: XboxDuplicateMapping| duplicate_view(d)) =~= before.map_values(
                |d: XboxDuplicateMapping| duplicate_view(d),
            ).push(duplicate_view(r@.last())));
        }
        k = k + 1;
    }
    assert(mappings@.subrange(0, mappings@.len() as int) =~= mappings@);
    r
}

/// Indexes the mounted files by logical path.
pub fn selected_files_index(files: &[XboxPackageFile]) -> (index: StringHashMap<usize>)
    ensures
        index@ == logical_index(files@),
{
    let mut index: StringHashMap<usize> = StringHashMap::new();
    let mut j: usize = 0;
    while j < files.len()
        invariant
            j <= files@.len(),
            index@ == logical_index(files@.subrange(0, j as int)),
        decreases files@.len() - j,
    {
        assert(files@.subrange(0, j + 1).drop_last() =~= files@.subrange(0, j as int));
        index.insert(files[j].logical_path.clone(), j);
        j = j + 1;
    }
    assert(files@.subrange(0, files@.len() as int) =~= files@);
    index
}

/// The mounted file of a mapped DAT path, by its index.
pub fn mapping_selection(dat_path: DatPath, files: &[XboxPackageFile], index: &StringHashMap<usize>) -> (r: Option<usize>)
    requires
        index@ == logical_index(files@),
    ensures
        r == (if logical_index(files@).contains_key(logical_path_chars(dat_path)) {
            Some(logical_index(files@)[logical_path_chars(dat_path)])
        } else {
            None::<usize>
        }),
        r matches Some(i) ==> i < files@.len(),
{
    let logical = dat_path.logical_path();
    proof {
        lemma_logical_index_bounds(files@, logical@);
    }
    match index.get(logical.as_str()) {
        Some(i) => Some(*i),
        None => None,
    }
}

/// The audit of a mapped DAT that no package holds.
pub fn missing_selection_audit(logical_path: String) -> (file: DatAuditFile)
    ensures
        file.id == 0,
        file.path@ == logical_path@,
        file.status == AuditStatus::Missing,
        file.format is None,
        file.failure_kind == Some(FailureKind::Missing),
        file.error matches Some(e) && e@ == "selected package DAT is missing"@,
{
    crate::audit::missing_file(0, logical_path, String::from_str("selected package DAT is missing"))
}

/// The audit of one mapped DAT path: its logical path and IDs, the package
/// that mounts it (or where it was expected) and the mounted file, and what
/// the audit of that file found.
pub fn xbox_mapping_result(
    mapping: &XboxMapping,
    files: &[XboxPackageFile],
    selection: Option<usize>,
    audit: DatAuditFile,
) -> (r: XboxMappingResult)
    requires
        selection matches Some(i) ==> i < files@.len(),
    ensures
        r.logical_path@ == logical_path_chars(mapping.dat_path),
        r.ids@ == mapping.ids@,
        r.package@ == (match selection {
            Some(i) => files@[i as int].package@,
            None => missing_package_chars(mapping.dat_path),
        }),
        opt_view(r.selected_path) == (match selection {
            Some(i) => Some(files@[i as int].physical_path@),
            None => None,
        }),
        r.status == audit.status,
        opt_view(r.format) == opt_view(audit.format),
        r.failure_kind == audit.failure_kind,
        opt_view(r.error) == opt_view(audit.error),
{
    let (package, selected_path) = match selection {
        Some(i) => (files[i].package.clone(), Some(files[i].physical_path.clone())),
        None => (String::from_str(xbox_missing_package_name(mapping.dat_path)), None),
    };
    XboxMappingResult {
        logical_path: mapping.dat_path.logical_path(),
        ids: copy_ids(&mapping.ids),
        package,
        selected_path,
        status: audit.status,
        format: audit.format,
        failure_kind: audit.failure_kind,
        error: audit.error,
    }
}


/// Number of files held by package `name`.
pub open spec fn count_package(files: Seq<XboxPackageFile>, name: Seq<char>) -> nat
    decreases files.len(),
{
    if files.len() == 0 {
        0
    } else {
        count_package(files.drop_last(), name) + if files.last().package@ == name {
            1nat
        } else {
            0nat
        }
    }
}

/// Number of client format mappings with status `status`.
pub open spec fn count_client_status(ms: Seq<XboxClientFormatMapping>, status: XboxClientMappingStatus) -> nat
    decreases ms.len(),
{
    if ms.len() == 0 {
        0
    } else {
        count_client_status(ms.drop_last(), status) + if ms.last().status == status {
            1nat
        } else {
            0nat
        }
    }
}

/// Every client format mapping has one of the three statuses, so their
/// counts add up to the number of mappings.
pub proof fn lemma_client_counts_partition(ms: Seq<XboxClientFormatMapping>)
    ensures
        count_client_status(ms, XboxClientMappingStatus::Selected) + count_client_status(
            ms,
            XboxClientMappingStatus::Missing,
        ) + count_client_status(ms, XboxClientMappingStatus::Absent) == ms.len(),
    decreases ms.len(),
{
    if ms.len() > 0 {
        lemma_client_counts_partition(ms.drop_last());
    }
}

/// Number of mapping results with audit status `status`.
pub open spec fn count_result_status(ms: Seq<XboxMappingResult>, status: AuditStatus) -> nat
    decreases ms.len(),
{
    if ms.len() == 0 {
        0
    } else {
        count_result_status(ms.drop_last(), status) + if ms.last().status == status {
            1nat
        } else {
            0nat
        }
    }
}

/// Number of mapping results whose format was recognised.
pub open spec fn count_result_recognized(ms: Seq<XboxMappingResult>) -> nat
    decreases ms.len(),
{
    if ms.len() == 0 {
        0
    } else {
        count_result_recognized(ms.drop_last()) + if ms.last().format is Some {
            1nat
        } else {
            0nat
        }
    }
}

/// The IDs beyond the first of each duplicated logical path, counted.
pub open spec fn duplicate_entries(ds: Seq<XboxDuplicateMapping>) -> nat
    decreases ds.len(),
{
    if ds.len() == 0 {
        0
    } else {
        duplicate_entries(ds.drop_last()) + if ds.last().ids@.len() > 0 {
            (ds.last().ids@.len() - 1) as nat
        } else {
            0nat
        }
    }
}

/// Totals of the Xbox package audit.
#[derive(Clone, Copy, Debug)]
pub struct XboxAuditSummary {
    pub mapped_ids: usize,
    pub unique_mappings: usize,
    pub duplicate_id_mappings: usize,
    pub duplicate_id_entries: usize,
    pub package_candidates: usize,
    pub selected_dats: usize,
    pub missing_mapped_paths: usize,
    pub unreferenced_selected_dats: usize,
    pub non_selected_mounted_shadow_dats: usize,
    pub r000100_unmounted_dats: usize,
    pub package_zero_overrides: usize,
    pub package_zero_base_fallbacks: usize,
    pub client_format_mappings: usize,
    pub selected_client_format_mappings: usize,
    pub missing_client_format_mappings: usize,
    pub absent_client_format_mappings: usize,
    pub recognized: usize,
    pub round_trip_ok: usize,
    pub unrecognized: usize,
    pub failed: usize,
}

fn count_package_files(files: &[XboxPackageFile], name: &str) -> (n: usize)
    ensures
        n == count_package(files@, name@),
{
    let mut n: usize = 0;
    let mut j: usize = 0;
    while j < files.len()
        invariant
            j <= files@.len(),
            n == count_package(files@.subrange(0, j as int), name@),
            n <= j,
        decreases files@.len() - j,
    {
        assert(files@.subrange(0, j + 1).drop_last() =~= files@.subrange(0, j as int));
        if str_equal(files[j].package.as_str(), name) {
            n = n + 1;
        }
        j = j + 1;
    }
    assert(files@.subrange(0, files@.len() as int) =~= files@);
    n
}

fn count_client_mappings(ms: &[XboxClientFormatMapping], status: XboxClientMappingStatus) -> (n: usize)
    ensures
        n == count_client_status(ms@, status),
{
    let mut n: usize = 0;
    let mut j: usize = 0;
    while j < ms.len()
        invariant
            j <= ms@.len(),
            n == count_client_status(ms@.subrange(0, j as int), status),
            n <= j,
        decreases ms@.len() - j,
    {
        assert(ms@.subrange(0, j + 1).drop_last() =~= ms@.subrange(0, j as int));
        if ms[j].status == status {
            n = n + 1;
        }
        j = j + 1;
    }
    assert(ms@.subrange(0, ms@.len() as int) =~= ms@);
    n
}

fn count_results(ms: &[XboxMappingResult], status: AuditStatus) -> (n: usize)
    ensures
        n == count_result_status(ms@, status),
{
    let mut n: usize = 0;
    let mut j: usize = 0;
    while j < ms.len()
        invariant
            j <= ms@.len(),
            n == count_result_status(ms@.subrange(0, j as int), status),
            n <= j,
        decreases ms@.len() - j,
    {
        assert(ms@.subrange(0, j + 1).drop_last() =~= ms@.subrange(0, j as int));
        if ms[j].status == status {
            n = n + 1;
        }
        j = j + 1;
    }
    assert(ms@.subrange(0, ms@.len() as int) =~= ms@);
    n
}

fn count_recognized_results(ms: &[XboxMappingResult]) -> (n: usize)
    ensures
        n == count_result_recognized(ms@),
{
    let mut n: usize = 0;
    let mut j: usize = 0;
    while j < ms.len()
        invariant
            j <= ms@.len(),
            n == count_result_recognized(ms@.subrange(0, j as int)),
            n <= j,
        decreases ms@.len() - j,
    {
        assert(ms@.subrange(0, j + 1).drop_last() =~= ms@.subrange(0, j as int));
        if ms[j].format.is_some() {
            n = n + 1;
        }
        j = j + 1;
    }
    assert(ms@.subrange(0, ms@.len() as int) =~= ms@);
    n
}

proof fn lemma_duplicate_entries_prefix(ds: Seq<XboxDuplicateMapping>, j: int)
    requires
        0 <= j <= ds.len(),
    ensures
        duplicate_entries(ds.subrange(0, j)) <= duplicate_entries(ds),
    decreases ds.len(),
{
    if j < ds.len() {
        assert(ds.drop_last() =~= ds.subrange(0, ds.len() - 1));
        lemma_duplicate_entries_prefix(ds.drop_last(), j);
        assert(ds.drop_last().subrange(0, j) =~= ds.subrange(0, j));
    } else {
        assert(ds.subrange(0, j) =~= ds);
    }
}

fn count_duplicate_entries(ds: &[XboxDuplicateMapping]) -> (n: usize)
    requires
        duplicate_entries(ds@) <= usize::MAX,
    ensures
        n == duplicate_entries(ds@),
{
    let mut n: usize = 0;
    let mut j: usize = 0;
    while j < ds.len()
        invariant
            j <= ds@.len(),
            n == duplicate_entries(ds@.subrange(0, j as int)),
            duplicate_entries(ds@) <= usize::MAX,
        decreases ds@.len() - j,
    {
        assert(ds@.subrange(0, j + 1).drop_last() =~= ds@.subrange(0, j as int));
        proof {
            lemma_duplicate_entries_prefix(ds@, j + 1);
        }
        let len = ds[j].ids.len();
        if len > 0 {
            n = n + (len - 1);
        }
        j = j + 1;
    }
    assert(ds@.subrange(0, ds@.len() as int) =~= ds@);
    n
}

/// Totals of the Xbox package audit: the sizes of its lists, the mounted DATs
/// of package slot zero and of the base package it falls back to, the client
/// format mappings by status and the mapping results by audit status.
pub fn summarize_xbox_audit(
    mapped_ids: &[XboxMappedId],
    mappings: &[XboxMapping],
    duplicates: &[XboxDuplicateMapping],
    candidates: &[XboxPackageCandidate],
    classification: &XboxClassification,
    client: &[XboxClientFormatMapping],
    unique: &[XboxMappingResult],
) -> (summary: XboxAuditSummary)
    requires
        duplicate_entries(duplicates@) <= usize::MAX,
    ensures
        summary.mapped_ids == mapped_ids@.len(),
        summary.unique_mappings == mappings@.len(),
        summary.duplicate_id_mappings == duplicates@.len(),
        summary.duplicate_id_entries == duplicate_entries(duplicates@),
        summary.package_candidates == candidates@.len(),
        summary.selected_dats == classification.selected_dats@.len(),
        summary.missing_mapped_paths == classification.missing_mapped_paths@.len(),
        summary.unreferenced_selected_dats == classification.unreferenced_selected_dats@.len(),
        summary.non_selected_mounted_shadow_dats == classification.non_selected_mounted_shadow_dats@.len(),
        summary.r000100_unmounted_dats == classification.r000100_unmounted_dats@.len(),
        summary.package_zero_overrides == count_package(classification.selected_dats@, package_name_chars(0)),
        summary.package_zero_base_fallbacks == count_package(classification.selected_dats@, base_package_chars()),
        summary.client_format_mappings == client@.len(),
        summary.selected_client_format_mappings == count_client_status(client@, XboxClientMappingStatus::Selected),
        summary.missing_client_format_mappings == count_client_status(client@, XboxClientMappingStatus::Missing),
        summary.absent_client_format_mappings == count_client_status(client@, XboxClientMappingStatus::Absent),
        summary.recognized == count_result_recognized(unique@),
        summary.round_trip_ok == count_result_status(unique@, AuditStatus::Passed),
        summary.unrecognized == count_result_status(unique@, AuditStatus::Unrecognized),
        summary.failed == count_result_status(unique@, AuditStatus::Failed),
{
    let selected = classification.selected_dats.as_slice();
    XboxAuditSummary {
        mapped_ids: mapped_ids.len(),
        unique_mappings: mappings.len(),
        duplicate_id_mappings: duplicates.len(),
        duplicate_id_entries: count_duplicate_entries(duplicates),
        package_candidates: candidates.len(),
        selected_dats: classification.selected_dats.len(),
        missing_mapped_paths: classification.missing_mapped_paths.len(),
        unreferenced_selected_dats: classification.unreferenced_selected_dats.len(),
        non_selected_mounted_shadow_dats: classification.non_selected_mounted_shadow_dats.len(),
        r000100_unmounted_dats: classification.r000100_unmounted_dats.len(),
        package_zero_overrides: count_package_files(selected, xbox_package_name(0)),
        package_zero_base_fallbacks: count_package_files(selected, base_package_name()),
        client_format_mappings: client.len(),
        selected_client_format_mappings: count_client_mappings(client, XboxClientMappingStatus::Selected),
        missing_client_format_mappings: count_client_mappings(client, XboxClientMappingStatus::Missing),
        absent_client_format_mappings: count_client_mappings(client, XboxClientMappingStatus::Absent),
        recognized: count_recognized_results(unique),
        round_trip_ok: count_results(unique, AuditStatus::Passed),
        unrecognized: count_results(unique, AuditStatus::Unrecognized),
        failed: count_results(unique, AuditStatus::Failed),
    }
}

} // verus!
