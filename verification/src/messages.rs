//! Error messages that name no client path: backslashes become slashes and
//! the paths of the client and of the DAT are replaced by placeholders.
use vstd::prelude::*;
use vstd::string::{StrSliceExecFns, StringExecFns};
use crate::dat_path::{forward_slashes, stable_relative_path};

verus! {

/// `s` with every non-overlapping occurrence of `pat`, from the left,
/// replaced by `rep`; an empty pattern replaces nothing.
pub open spec fn replace_all(s: Seq<char>, pat: Seq<char>, rep: Seq<char>) -> Seq<char>
    decreases s.len(),
{
    if pat.len() == 0 || s.len() == 0 {
        s
    } else if pat.len() <= s.len() && s.subrange(0, pat.len() as int) == pat {
        rep + replace_all(s.subrange(pat.len() as int, s.len() as int), pat, rep)
    } else {
        seq![s[0]] + replace_all(s.drop_first(), pat, rep)
    }
}

/// Index of the first of the longest values.
pub open spec fn first_longest(rs: Seq<(Seq<char>, Seq<char>)>) -> int
    decreases rs.len(),
{
    if rs.len() <= 1 {
        0
    } else {
        let k = first_longest(rs.drop_last());
        if rs.last().0.len() > rs[k].0.len() {
            rs.len() - 1
        } else {
            k
        }
    }
}

/// The replacements, longest value first; equally long values keep their
/// order.
pub open spec fn longest_first(rs: Seq<(Seq<char>, Seq<char>)>) -> Seq<(Seq<char>, Seq<char>)>
    decreases rs.len(),
{
    if rs.len() == 0 {
        Seq::empty()
    } else {
        let k = first_longest(rs);
        proof {
            lemma_first_longest_bounds(rs);
        }
        seq![rs[k]] + longest_first(rs.remove(k))
    }
}

/// `s` after each replacement in turn; an empty value replaces nothing.
pub open spec fn apply_replacements(s: Seq<char>, rs: Seq<(Seq<char>, Seq<char>)>) -> Seq<char>
    decreases rs.len(),
{
    if rs.len() == 0 {
        s
    } else {
        apply_replacements(replace_all(s, rs[0].0, rs[0].1), rs.drop_first())
    }
}

/// The replacements with backslashes in their values turned into slashes.
pub open spec fn normalized(rs: Seq<(Seq<char>, Seq<char>)>) -> Seq<(Seq<char>, Seq<char>)> {
    rs.map_values(|r: (Seq<char>, Seq<char>)| (forward_slashes(r.0), r.1))
}

/// The message `error` with backslashes turned into slashes and each value
/// of `rs` replaced by its placeholder, longest values first.
pub open spec fn sanitized(error: Seq<char>, rs: Seq<(Seq<char>, Seq<char>)>) -> Seq<char> {
    apply_replacements(forward_slashes(error), longest_first(normalized(rs)))
}

pub proof fn lemma_first_longest_bounds(rs: Seq<(Seq<char>, Seq<char>)>)
    ensures
        rs.len() > 0 ==> 0 <= first_longest(rs) < rs.len(),
        forall|j: int| 0 <= j < rs.len() ==> (#[trigger] rs[j]).0.len() <= rs[first_longest(rs)].0.len(),
        forall|j: int| 0 <= j < first_longest(rs) ==> (#[trigger] rs[j]).0.len() < rs[first_longest(rs)].0.len(),
    decreases rs.len(),
{
    if rs.len() > 1 {
        let front = rs.drop_last();
        lemma_first_longest_bounds(front);
        let k = first_longest(front);
        assert(rs[k] == front[k]);
        assert forall|j: int| 0 <= j < rs.len() - 1 implies rs[j] == front[j] by {}
    }
}

fn matches_at(s: &str, n: usize, i: usize, pat: &str, m: usize) -> (r: bool)
    requires
        n == s@.len(),
        m == pat@.len(),
        i <= n,
    ensures
        r == (m <= n - i && s@.subrange(i as int, i + m) == pat@),
{
    if m > n - i {
        return false;
    }
    let mut k: usize = 0;
    while k < m
        invariant
            m <= n - i,
            n == s@.len(),
            m == pat@.len(),
            k <= m,
            forall|j: int| 0 <= j < k ==> s@[i + j] == pat@[j],
        decreases m - k,
    {
        if s.get_char(i + k) != pat.get_char(k) {
            assert(s@.subrange(i as int, i + m)[k as int] != pat@[k as int]);
            return false;
        }
        k = k + 1;
    }
    assert(s@.subrange(i as int, i + m) =~= pat@);
    true
}

/// Replaces every non-overlapping occurrence of `pat` in `s`, from the left,
/// by `rep`, as `str::replace` does; an empty pattern replaces nothing.
pub fn replace_all_exec(s: &str, pat: &str, rep: &str) -> (r: String)
    ensures
        r@ == replace_all(s@, pat@, rep@),
{
    let n = s.unicode_len();
    let m = pat.unicode_len();
    if m == 0 {
        return String::from_str(s);
    }
    let mut out = String::new();
    let mut i: usize = 0;
    assert(s@.subrange(0, n as int) =~= s@);
    while i < n
        invariant
            n == s@.len(),
            m == pat@.len(),
            m > 0,
            i <= n,
            replace_all(s@, pat@, rep@) == out@ + replace_all(s@.subrange(i as int, n as int), pat@, rep@),
        decreases n - i,
    {
        let ghost t = s@.subrange(i as int, n as int);
        if matches_at(s, n, i, pat, m) {
            assert(t.subrange(0, m as int) =~= s@.subrange(i as int, i + m));
            assert(t.subrange(m as int, t.len() as int) =~= s@.subrange(i + m, n as int));
            let ghost out0 = out@;
            let ghost rest = replace_all(s@.subrange(i + m, n as int), pat@, rep@);
            out.append(rep);
            assert(out0 + (rep@ + rest) =~= out@ + rest);
            i = i + m;
        } else {
            proof {
                if m <= t.len() {
                    assert(t.subrange(0, m as int) =~= s@.subrange(i as int, i + m));
                }
            }
            assert(t.drop_first() =~= s@.subrange(i + 1, n as int));
            let ghost out0 = out@;
            let ghost rest = replace_all(s@.subrange(i + 1, n as int), pat@, rep@);
            out.append(s.substring_char(i, i + 1));
            assert(s@.subrange(i as int, i + 1) =~= seq![t[0]]);
            assert(out0 + (seq![t[0]] + rest) =~= out@ + rest);
            i = i + 1;
        }
    }
    assert(s@.subrange(n as int, n as int) =~= Seq::<char>::empty());
    assert(out@ + Seq::<char>::empty() =~= out@);
    out
}

/// The index of the first of the longest values.
fn first_longest_exec(rs: &Vec<(String, String)>) -> (k: usize)
    requires
        rs@.len() > 0,
    ensures
        k == first_longest(pairs_view(rs@)),
{
    let mut k: usize = 0;
    let mut best = rs[0].0.unicode_len();
    let mut j: usize = 1;
    while j < rs.len()
        invariant
            1 <= j <= rs@.len(),
            k < j,
            k == first_longest(pairs_view(rs@).subrange(0, j as int)),
            best == rs@[k as int].0@.len(),
        decreases rs@.len() - j,
    {
        let ghost front = pairs_view(rs@).subrange(0, j + 1);
        assert(front.drop_last() =~= pairs_view(rs@).subrange(0, j as int));
        let len = rs[j].0.unicode_len();
        if len > best {
            k = j;
            best = len;
        }
        j = j + 1;
    }
    assert(pairs_view(rs@).subrange(0, rs@.len() as int) =~= pairs_view(rs@));
    k
}

/// The views of string pairs.
pub open spec fn pairs_view(rs: Seq<(String, String)>) -> Seq<(Seq<char>, Seq<char>)> {
    rs.map_values(|r: (String, String)| (r.0@, r.1@))
}

/// Turns backslashes into slashes in `error` and replaces each value of
/// `replacements` (its backslashes turned into slashes too) by its
/// placeholder, longest values first; empty values replace nothing.
pub fn sanitize_error(error: &str, replacements: &[(String, String)]) -> (r: String)
    ensures
        r@ == sanitized(error@, pairs_view(replacements@)),
{
    let mut rest: Vec<(String, String)> = Vec::new();
    let mut j: usize = 0;
    while j < replacements.len()
        invariant
            j <= replacements@.len(),
            pairs_view(rest@) =~= normalized(pairs_view(replacements@)).subrange(0, j as int),
        decreases replacements@.len() - j,
    {
        let value = stable_relative_path(replacements[j].0.as_str());
        let token = String::from_str(replacements[j].1.as_str());
        let ghost before = pairs_view(rest@);
        rest.push((value, token));
        proof {
            let target = normalized(pairs_view(replacements@));
            assert(pairs_view(replacements@)[j as int] == (replacements@[j as int].0@, replacements@[j as int].1@));
            assert(target[j as int] == (forward_slashes(replacements@[j as int].0@), replacements@[j as int].1@));
            assert(pairs_view(rest@) =~= before.push(target[j as int]));
            assert(target.subrange(0, j + 1) =~= target.subrange(0, j as int).push(target[j as int]));
        }
        j = j + 1;
    }
    let mut out = stable_relative_path(error);
    assert(normalized(pairs_view(replacements@)).subrange(0, replacements@.len() as int) =~= normalized(
        pairs_view(replacements@),
    ));
    while rest.len() > 0
        invariant
            sanitized(error@, pairs_view(replacements@)) == apply_replacements(out@, longest_first(pairs_view(rest@))),
        decreases rest@.len(),
    {
        let k = first_longest_exec(&rest);
        proof {
            lemma_first_longest_bounds(pairs_view(rest@));
        }
        let ghost before = pairs_view(rest@);
        let (value, token) = rest.remove(k);
        assert(pairs_view(rest@) =~= before.remove(k as int));
        out = replace_all_exec(out.as_str(), value.as_str(), token.as_str());
        assert((seq![before[k as int]] + longest_first(before.remove(k as int))).drop_first() =~= longest_first(
            before.remove(k as int),
        ));
    }
    out
}

/// Whether `v` occurs in `s` at position `i`.
pub open spec fn occurs_at(s: Seq<char>, v: Seq<char>, i: int) -> bool {
    0 <= i && i + v.len() <= s.len() && s.subrange(i, i + v.len()) == v
}

/// Whether `v` occurs in `s`.
pub open spec fn occurs(s: Seq<char>, v: Seq<char>) -> bool {
    exists|i: int| occurs_at(s, v, i)
}

/// Whether no character of `t` occurs in `v`.
pub open spec fn shares_no_char(v: Seq<char>, t: Seq<char>) -> bool {
    forall|a: int, b: int| 0 <= a < v.len() && 0 <= b < t.len() ==> #[trigger] v[a] != #[trigger] t[b]
}

/// Whether no character of `s` is one of `t`.
pub open spec fn free_of(s: Seq<char>, t: Seq<char>) -> bool {
    forall|a: int, b: int| 0 <= a < s.len() && 0 <= b < t.len() ==> #[trigger] s[a] != #[trigger] t[b]
}

/// A stretch at the start of a replaced text with no character of the
/// replacement is the same stretch of the text.
proof fn lemma_replaced_prefix(s: Seq<char>, pat: Seq<char>, rep: Seq<char>, n: int)
    requires
        rep.len() > 0,
        0 <= n <= replace_all(s, pat, rep).len(),
        free_of(replace_all(s, pat, rep).subrange(0, n), rep),
    ensures
        n <= s.len(),
        replace_all(s, pat, rep).subrange(0, n) == s.subrange(0, n),
    decreases s.len(),
{
    let r = replace_all(s, pat, rep);
    if n == 0 {
        assert(r.subrange(0, 0) =~= s.subrange(0, 0));
    } else if pat.len() == 0 || s.len() == 0 {
    } else if pat.len() <= s.len() && s.subrange(0, pat.len() as int) == pat {
        assert(r[0] == rep[0]);
        assert(r.subrange(0, n)[0] == r[0]);
    } else {
        let t = s.drop_first();
        let rt = replace_all(t, pat, rep);
        assert(r == seq![s[0]] + rt);
        assert forall|a: int, b: int| 0 <= a < rt.subrange(0, n - 1).len() && 0 <= b < rep.len() implies
            #[trigger] rt.subrange(0, n - 1)[a] != #[trigger] rep[b] by {
            assert(rt.subrange(0, n - 1)[a] == r.subrange(0, n)[a + 1]);
        }
        lemma_replaced_prefix(t, pat, rep, n - 1);
        assert(r.subrange(0, n) =~= seq![s[0]] + rt.subrange(0, n - 1));
        assert(s.subrange(0, n) =~= seq![s[0]] + t.subrange(0, n - 1));
    }
}

/// Replacing by text that has none of the characters of `v` brings no new
/// occurrence of `v`.
proof fn lemma_replace_keeps_absent(s: Seq<char>, pat: Seq<char>, rep: Seq<char>, v: Seq<char>)
    requires
        rep.len() > 0,
        v.len() > 0,
        shares_no_char(v, rep),
        !occurs(s, v),
    ensures
        !occurs(replace_all(s, pat, rep), v),
    decreases s.len(),
{
    let r = replace_all(s, pat, rep);
    if pat.len() == 0 || s.len() == 0 {
    } else if pat.len() <= s.len() && s.subrange(0, pat.len() as int) == pat {
        let rest = s.subrange(pat.len() as int, s.len() as int);
        let rr = replace_all(rest, pat, rep);
        assert(!occurs(rest, v)) by {
            if occurs(rest, v) {
                let i = choose|i: int| occurs_at(rest, v, i);
                assert(s.subrange(i + pat.len(), i + pat.len() + v.len()) =~= rest.subrange(i, i + v.len()));
                assert(occurs_at(s, v, i + pat.len()));
            }
        }
        lemma_replace_keeps_absent(rest, pat, rep, v);
        if occurs(r, v) {
            let i = choose|i: int| occurs_at(r, v, i);
            if i < rep.len() {
                assert(r[i] == rep[i]);
                assert(r.subrange(i, i + v.len())[0] == r[i]);
            } else {
                assert(rr.subrange(i - rep.len(), i - rep.len() + v.len()) =~= r.subrange(i, i + v.len()));
                assert(occurs_at(rr, v, i - rep.len()));
            }
        }
    } else {
        let t = s.drop_first();
        let rt = replace_all(t, pat, rep);
        assert(r == seq![s[0]] + rt);
        assert(!occurs(t, v)) by {
            if occurs(t, v) {
                let i = choose|i: int| occurs_at(t, v, i);
                assert(s.subrange(i + 1, i + 1 + v.len()) =~= t.subrange(i, i + v.len()));
                assert(occurs_at(s, v, i + 1));
            }
        }
        lemma_replace_keeps_absent(t, pat, rep, v);
        if occurs(r, v) {
            let i = choose|i: int| occurs_at(r, v, i);
            if i == 0 {
                let m = v.len() - 1;
                assert forall|a: int, b: int| 0 <= a < rt.subrange(0, m).len() && 0 <= b < rep.len() implies
                    #[trigger] rt.subrange(0, m)[a] != #[trigger] rep[b] by {
                    assert(rt.subrange(0, m)[a] == v[a + 1]);
                }
                lemma_replaced_prefix(t, pat, rep, m);
                assert(r.subrange(0, v.len() as int) =~= seq![s[0]] + rt.subrange(0, m));
                assert(s.subrange(0, v.len() as int) =~= seq![s[0]] + t.subrange(0, m));
                assert(v =~= s.subrange(0, v.len() as int));
                assert(occurs_at(s, v, 0));
            } else {
                assert(rt.subrange(i - 1, i - 1 + v.len()) =~= r.subrange(i, i + v.len()));
                assert(occurs_at(rt, v, i - 1));
            }
        }
    }
}

/// Replacing `v` by text that has none of its characters leaves no
/// occurrence of `v`.
proof fn lemma_replace_removes(s: Seq<char>, v: Seq<char>, rep: Seq<char>)
    requires
        rep.len() > 0,
        v.len() > 0,
        shares_no_char(v, rep),
    ensures
        !occurs(replace_all(s, v, rep), v),
    decreases s.len(),
{
    let r = replace_all(s, v, rep);
    if s.len() == 0 {
        if occurs(r, v) {
            let i = choose|i: int| occurs_at(r, v, i);
        }
    } else if v.len() <= s.len() && s.subrange(0, v.len() as int) == v {
        let rest = s.subrange(v.len() as int, s.len() as int);
        let rr = replace_all(rest, v, rep);
        lemma_replace_removes(rest, v, rep);
        if occurs(r, v) {
            let i = choose|i: int| occurs_at(r, v, i);
            if i < rep.len() {
                assert(r[i] == rep[i]);
                assert(r.subrange(i, i + v.len())[0] == r[i]);
            } else {
                assert(rr.subrange(i - rep.len(), i - rep.len() + v.len()) =~= r.subrange(i, i + v.len()));
                assert(occurs_at(rr, v, i - rep.len()));
            }
        }
    } else {
        let t = s.drop_first();
        let rt = replace_all(t, v, rep);
        assert(r == seq![s[0]] + rt);
        lemma_replace_removes(t, v, rep);
        if occurs(r, v) {
            let i = choose|i: int| occurs_at(r, v, i);
            if i == 0 {
                let m = v.len() - 1;
                assert forall|a: int, b: int| 0 <= a < rt.subrange(0, m).len() && 0 <= b < rep.len() implies
                    #[trigger] rt.subrange(0, m)[a] != #[trigger] rep[b] by {
                    assert(rt.subrange(0, m)[a] == v[a + 1]);
                }
                lemma_replaced_prefix(t, v, rep, m);
                assert(r.subrange(0, v.len() as int) =~= seq![s[0]] + rt.subrange(0, m));
                assert(s.subrange(0, v.len() as int) =~= seq![s[0]] + t.subrange(0, m));
                assert(v =~= s.subrange(0, v.len() as int));
            } else {
                assert(rt.subrange(i - 1, i - 1 + v.len()) =~= r.subrange(i, i + v.len()));
                assert(occurs_at(rt, v, i - 1));
            }
        }
    }
}

proof fn lemma_apply_keeps_absent(s: Seq<char>, order: Seq<(Seq<char>, Seq<char>)>, v: Seq<char>)
    requires
        v.len() > 0,
        !occurs(s, v),
        forall|j: int| 0 <= j < order.len() ==> (#[trigger] order[j]).1.len() > 0 && shares_no_char(v, order[j].1),
    ensures
        !occurs(apply_replacements(s, order), v),
    decreases order.len(),
{
    if order.len() > 0 {
        lemma_replace_keeps_absent(s, order[0].0, order[0].1, v);
        let rest = order.drop_first();
        assert forall|j: int| 0 <= j < rest.len() implies (#[trigger] rest[j]).1.len() > 0 && shares_no_char(
            v,
            rest[j].1,
        ) by {
            assert(rest[j] == order[j + 1]);
        }
        lemma_apply_keeps_absent(replace_all(s, order[0].0, order[0].1), rest, v);
    }
}

proof fn lemma_apply_removes(s: Seq<char>, order: Seq<(Seq<char>, Seq<char>)>, v: Seq<char>, k: int)
    requires
        v.len() > 0,
        0 <= k < order.len(),
        order[k].0 == v,
        forall|j: int| 0 <= j < order.len() ==> (#[trigger] order[j]).1.len() > 0 && shares_no_char(v, order[j].1),
    ensures
        !occurs(apply_replacements(s, order), v),
    decreases order.len(),
{
    let rest = order.drop_first();
    assert forall|j: int| 0 <= j < rest.len() implies (#[trigger] rest[j]).1.len() > 0 && shares_no_char(
        v,
        rest[j].1,
    ) by {
        assert(rest[j] == order[j + 1]);
    }
    let next = replace_all(s, order[0].0, order[0].1);
    if k == 0 {
        lemma_replace_removes(s, v, order[0].1);
        lemma_apply_keeps_absent(next, rest, v);
    } else {
        assert(rest[k - 1] == order[k]);
        lemma_apply_removes(next, rest, v, k - 1);
    }
}

/// Every replacement appears in the longest-first order, and the order holds
/// nothing else.
proof fn lemma_longest_first_elements(rs: Seq<(Seq<char>, Seq<char>)>)
    ensures
        longest_first(rs).len() == rs.len(),
        forall|j: int| 0 <= j < rs.len() ==> longest_first(rs).contains(#[trigger] rs[j]),
        forall|k: int| 0 <= k < rs.len() ==> rs.contains(#[trigger] longest_first(rs)[k]),
    decreases rs.len(),
{
    if rs.len() > 0 {
        lemma_first_longest_bounds(rs);
        let m = first_longest(rs);
        let rest = rs.remove(m);
        lemma_longest_first_elements(rest);
        let lf = longest_first(rs);
        let lr = longest_first(rest);
        assert(lf == seq![rs[m]] + lr);
        assert forall|j: int| 0 <= j < rs.len() implies lf.contains(#[trigger] rs[j]) by {
            if j == m {
                assert(lf[0] == rs[j]);
            } else {
                let jj = if j < m { j } else { j - 1 };
                assert(rest[jj] == rs[j]);
                assert(lr.contains(rest[jj]));
                let kk = choose|k: int| 0 <= k < lr.len() && lr[k] == rest[jj];
                assert(lf[kk + 1] == rs[j]);
            }
        }
        assert forall|k: int| 0 <= k < rs.len() implies rs.contains(#[trigger] lf[k]) by {
            if k == 0 {
                assert(lf[0] == rs[m]);
            } else {
                assert(lf[k] == lr[k - 1]);
                assert(rest.contains(lr[k - 1]));
                let jj = choose|j: int| 0 <= j < rest.len() && rest[j] == lr[k - 1];
                if jj < m {
                    assert(rest[jj] == rs[jj]);
                } else {
                    assert(rest[jj] == rs[jj + 1]);
                }
            }
        }
    }
}

/// An error message names no replaced path: when a value is not empty and no
/// placeholder is empty or shares a character with it, the value (its
/// backslashes turned into slashes) does not occur in the sanitised message.
pub proof fn lemma_sanitized_hides_value(error: Seq<char>, rs: Seq<(Seq<char>, Seq<char>)>, i: int)
    requires
        0 <= i < rs.len(),
        forward_slashes(rs[i].0).len() > 0,
        forall|j: int| 0 <= j < rs.len() ==> (#[trigger] rs[j]).1.len() > 0 && shares_no_char(
            forward_slashes(rs[i].0),
            rs[j].1,
        ),
    ensures
        !occurs(sanitized(error, rs), forward_slashes(rs[i].0)),
{
    let v = forward_slashes(rs[i].0);
    let ns = normalized(rs);
    let order = longest_first(ns);
    lemma_longest_first_elements(ns);
    assert(ns[i] == (v, rs[i].1));
    assert(order.contains(ns[i]));
    let k = choose|k: int| 0 <= k < order.len() && order[k] == ns[i];
    assert forall|j: int| 0 <= j < order.len() implies (#[trigger] order[j]).1.len() > 0 && shares_no_char(
        v,
        order[j].1,
    ) by {
        assert(ns.contains(order[j]));
        let jj = choose|jj: int| 0 <= jj < ns.len() && ns[jj] == order[j];
        assert(ns[jj].1 == rs[jj].1);
    }
    lemma_apply_removes(forward_slashes(error), order, v, k);
}

} // verus!
