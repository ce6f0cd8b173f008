//! The accounting of the Xbox package classification: every package
//! candidate is reported exactly once.
use vstd::prelude::*;
use crate::dat_path::{base_package_chars, logical_path_chars, package_name_chars, DatPath};
use crate::logical_paths::{lemma_key_paths_injective, lemma_package_names_no_slash};
use crate::text::lower_chars;
use crate::xbox::{
    candidate_class, class_entries, fallback_key, joined, mounted_for_mapping, mounts, path_index,
    missing_entries, preferred_key, select_spec, selected_entries, XboxMapping, XboxPackageCandidate,
};

verus! {

/// The index that a lower-cased path leads to holds a candidate with that
/// lower-cased path.
proof fn lemma_path_index_sound(cs: Seq<XboxPackageCandidate>, key: Seq<char>)
    requires
        path_index(cs).contains_key(key),
        cs.len() <= usize::MAX,
    ensures
        path_index(cs)[key] < cs.len(),
        lower_chars(cs[path_index(cs)[key] as int].physical_path@) == key,
    decreases cs.len(),
{
    let rest = cs.drop_last();
    if lower_chars(cs.last().physical_path@) != key {
        lemma_path_index_sound(rest, key);
        assert(path_index(cs)[key] == path_index(rest)[key]);
        assert(cs[path_index(cs)[key] as int] == rest[path_index(rest)[key] as int]);
    } else {
        assert(path_index(cs)[key] == (cs.len() - 1) as usize);
    }
}

/// The key under which the candidate mounted for `p` was found.
pub open spec fn selection_key(p: DatPath, cs: Seq<XboxPackageCandidate>) -> Seq<char> {
    if path_index(cs).contains_key(preferred_key(p)) {
        preferred_key(p)
    } else {
        fallback_key(p)
    }
}

proof fn lemma_selection(p: DatPath, cs: Seq<XboxPackageCandidate>)
    requires
        select_spec(p, path_index(cs)) is Some,
        cs.len() <= usize::MAX,
    ensures
        select_spec(p, path_index(cs)).unwrap() < cs.len(),
        lower_chars(cs[select_spec(p, path_index(cs)).unwrap() as int].physical_path@) == selection_key(p, cs),
{
    lemma_path_index_sound(cs, selection_key(p, cs));
}

/// Two DAT paths never mount the same candidate.
proof fn lemma_selection_injective(p: DatPath, q: DatPath, cs: Seq<XboxPackageCandidate>)
    requires
        cs.len() <= usize::MAX,
        select_spec(p, path_index(cs)) is Some,
        select_spec(p, path_index(cs)) == select_spec(q, path_index(cs)),
    ensures
        p == q,
{
    lemma_selection(p, cs);
    lemma_selection(q, cs);
    let pa = if path_index(cs).contains_key(preferred_key(p)) {
        package_name_chars(crate::dat_path::spec_xbox_package_index(p))
    } else {
        base_package_chars()
    };
    let qa = if path_index(cs).contains_key(preferred_key(q)) {
        package_name_chars(crate::dat_path::spec_xbox_package_index(q))
    } else {
        base_package_chars()
    };
    lemma_package_names_no_slash(crate::dat_path::spec_xbox_package_index(p));
    lemma_package_names_no_slash(crate::dat_path::spec_xbox_package_index(q));
    assert(selection_key(p, cs) == lower_chars(joined(pa, logical_path_chars(p))));
    assert(selection_key(q, cs) == lower_chars(joined(qa, logical_path_chars(q))));
    lemma_key_paths_injective(pa, p, qa, q);
}

/// Whether `p` mounts the candidate at index `k`.
pub open spec fn selects(p: DatPath, cs: Seq<XboxPackageCandidate>, k: int) -> bool {
    match select_spec(p, path_index(cs)) {
        Some(i) => i as int == k,
        None => false,
    }
}

/// Whether some mapping mounts the candidate at index `k`.
pub open spec fn mounted_by(ms: Seq<XboxMapping>, cs: Seq<XboxPackageCandidate>, k: int) -> bool {
    exists|j: int| 0 <= j < ms.len() && selects(#[trigger] ms[j].dat_path, cs, k)
}

/// Number of the first `n` candidates that some mapping mounts.
pub open spec fn count_mounted(ms: Seq<XboxMapping>, cs: Seq<XboxPackageCandidate>, n: int) -> nat
    decreases n,
{
    if n <= 0 {
        0
    } else {
        count_mounted(ms, cs, n - 1) + if mounted_by(ms, cs, n - 1) {
            1nat
        } else {
            0nat
        }
    }
}

/// Whether the mappings name distinct DAT paths.
pub open spec fn distinct_paths(ms: Seq<XboxMapping>) -> bool {
    forall|a: int, b: int| 0 <= a < b < ms.len() ==> #[trigger] ms[a].dat_path != #[trigger] ms[b].dat_path
}

/// Whether the candidates' physical paths differ even when lower-cased.
pub open spec fn distinct_lowered_paths(cs: Seq<XboxPackageCandidate>) -> bool {
    forall|a: int, b: int|
        0 <= a < b < cs.len() ==> lower_chars(#[trigger] cs[a].physical_path@) != lower_chars(
            #[trigger] cs[b].physical_path@,
        )
}

proof fn lemma_count_mounted_empty(ms: Seq<XboxMapping>, cs: Seq<XboxPackageCandidate>, n: int)
    requires
        ms.len() == 0,
    ensures
        count_mounted(ms, cs, n) == 0,
    decreases n,
{
    if n > 0 {
        lemma_count_mounted_empty(ms, cs, n - 1);
    }
}

/// Adding the last mapping adds its candidate, which no earlier mapping mounts.
proof fn lemma_count_mounted_step(ms: Seq<XboxMapping>, cs: Seq<XboxPackageCandidate>, n: int)
    requires
        cs.len() <= usize::MAX,
        ms.len() > 0,
        distinct_paths(ms),
    ensures
        count_mounted(ms, cs, n) == count_mounted(ms.drop_last(), cs, n) + match select_spec(
            ms.last().dat_path,
            path_index(cs),
        ) {
            Some(s) => if 0 <= s < n {
                1nat
            } else {
                0nat
            },
            None => 0nat,
        },
    decreases n,
{
    let ms0 = ms.drop_last();
    let last = ms.last();
    if n > 0 {
        lemma_count_mounted_step(ms, cs, n - 1);
        let k = n - 1;
        let hit = selects(last.dat_path, cs, k);
        if mounted_by(ms, cs, k) {
            let j = choose|j: int| 0 <= j < ms.len() && selects(#[trigger] ms[j].dat_path, cs, k);
            if j < ms.len() - 1 {
                assert(ms0[j] == ms[j]);
                assert(mounted_by(ms0, cs, k));
            } else {
                assert(hit);
            }
        }
        if mounted_by(ms0, cs, k) {
            let j = choose|j: int| 0 <= j < ms0.len() && selects(#[trigger] ms0[j].dat_path, cs, k);
            assert(ms[j] == ms0[j]);
            assert(mounted_by(ms, cs, k));
            if hit {
                lemma_selection_injective(ms[j].dat_path, last.dat_path, cs);
                assert(ms[j].dat_path != ms[ms.len() - 1].dat_path);
            }
        }
        if hit {
            assert(ms[ms.len() - 1] == last);
            assert(mounted_by(ms, cs, k));
        }
    }
}

/// Number of mappings that mount a candidate.
pub open spec fn count_selected(ms: Seq<XboxMapping>, cs: Seq<XboxPackageCandidate>) -> nat
    decreases ms.len(),
{
    if ms.len() == 0 {
        0
    } else {
        count_selected(ms.drop_last(), cs) + if select_spec(ms.last().dat_path, path_index(cs)) is Some {
            1nat
        } else {
            0nat
        }
    }
}

proof fn lemma_selected_entries_len(ms: Seq<XboxMapping>, cs: Seq<XboxPackageCandidate>)
    ensures
        selected_entries(ms, cs).len() == count_selected(ms, cs),
    decreases ms.len(),
{
    if ms.len() > 0 {
        lemma_selected_entries_len(ms.drop_last(), cs);
    }
}

proof fn lemma_count_mounted_all(ms: Seq<XboxMapping>, cs: Seq<XboxPackageCandidate>)
    requires
        cs.len() <= usize::MAX,
        distinct_paths(ms),
    ensures
        count_mounted(ms, cs, cs.len() as int) == count_selected(ms, cs),
    decreases ms.len(),
{
    if ms.len() == 0 {
        lemma_count_mounted_empty(ms, cs, cs.len() as int);
    } else {
        let ms0 = ms.drop_last();
        assert(distinct_paths(ms0)) by {
            assert forall|a: int, b: int| 0 <= a < b < ms0.len() implies #[trigger] ms0[a].dat_path
                != #[trigger] ms0[b].dat_path by {
                assert(ms0[a] == ms[a] && ms0[b] == ms[b]);
            }
        }
        lemma_count_mounted_all(ms0, cs);
        lemma_count_mounted_step(ms, cs, cs.len() as int);
        if select_spec(ms.last().dat_path, path_index(cs)) is Some {
            lemma_selection(ms.last().dat_path, cs);
        }
    }
}

/// Every candidate has one of the four classes.
proof fn lemma_class_sum(ms: Seq<XboxMapping>, cs: Seq<XboxPackageCandidate>, prefix: Seq<XboxPackageCandidate>)
    ensures
        class_entries(ms, cs, prefix, 0).len() + class_entries(ms, cs, prefix, 1).len() + class_entries(
            ms,
            cs,
            prefix,
            2,
        ).len() + class_entries(ms, cs, prefix, 3).len() == prefix.len(),
    decreases prefix.len(),
{
    if prefix.len() > 0 {
        lemma_class_sum(ms, cs, prefix.drop_last());
        let c = candidate_class(ms, cs, prefix.last());
        assert(0 <= c <= 3);
    }
}

/// The candidates of class zero are those some mapping mounts.
proof fn lemma_class_zero(ms: Seq<XboxMapping>, cs: Seq<XboxPackageCandidate>, n: int)
    requires
        cs.len() <= usize::MAX,
        0 <= n <= cs.len(),
        distinct_lowered_paths(cs),
    ensures
        class_entries(ms, cs, cs.subrange(0, n), 0).len() == count_mounted(ms, cs, n),
    decreases n,
{
    if n > 0 {
        let prefix = cs.subrange(0, n);
        assert(prefix.drop_last() =~= cs.subrange(0, n - 1));
        lemma_class_zero(ms, cs, n - 1);
        let k = n - 1;
        let c = cs[k];
        assert(prefix.last() == c);
        if mounted_by(ms, cs, k) {
            let j = choose|j: int| 0 <= j < ms.len() && selects(#[trigger] ms[j].dat_path, cs, k);
            assert(mounts(ms[j].dat_path, cs, c.physical_path@));
            assert(mounted_for_mapping(ms, cs, c.physical_path@));
        }
        if mounted_for_mapping(ms, cs, c.physical_path@) {
            let j = choose|j: int| 0 <= j < ms.len() && mounts(#[trigger] ms[j].dat_path, cs, c.physical_path@);
            let i = select_spec(ms[j].dat_path, path_index(cs)).unwrap();
            lemma_selection(ms[j].dat_path, cs);
            assert(cs[i as int].physical_path@ == c.physical_path@);
            if i as int != k {
                if (i as int) < k {
                    assert(lower_chars(cs[i as int].physical_path@) != lower_chars(cs[k].physical_path@));
                } else {
                    assert(lower_chars(cs[k].physical_path@) != lower_chars(cs[i as int].physical_path@));
                }
            }
            assert(mounted_by(ms, cs, k));
        }
    }
}

/// Every package candidate is reported exactly once: the DATs mounted for
/// the mappings, the unmounted DATs of package slot zero, the mounted copies
/// of unmapped paths and the shadowed copies together number the candidates,
/// when the mappings name distinct DAT paths and no two candidates' paths
/// differ only in case.
pub proof fn lemma_candidates_reported_once(ms: Seq<XboxMapping>, cs: Seq<XboxPackageCandidate>)
    requires
        cs.len() <= usize::MAX,
        distinct_paths(ms),
        distinct_lowered_paths(cs),
    ensures
        selected_entries(ms, cs).len() + class_entries(ms, cs, cs, 1).len() + class_entries(ms, cs, cs, 2).len()
            + class_entries(ms, cs, cs, 3).len() == cs.len(),
{
    lemma_selected_entries_len(ms, cs);
    lemma_count_mounted_all(ms, cs);
    lemma_class_zero(ms, cs, cs.len() as int);
    assert(cs.subrange(0, cs.len() as int) =~= cs);
    lemma_class_sum(ms, cs, cs);
}

/// Every mapped DAT path is reported once: as the DAT mounted for it, or as
/// missing.
pub proof fn lemma_mappings_mounted_or_missing(ms: Seq<XboxMapping>, cs: Seq<XboxPackageCandidate>)
    ensures
        selected_entries(ms, cs).len() + missing_entries(ms, cs).len() == ms.len(),
    decreases ms.len(),
{
    if ms.len() > 0 {
        lemma_mappings_mounted_or_missing(ms.drop_last(), cs);
    }
}

} // verus!
