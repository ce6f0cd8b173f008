use vstd::prelude::*;
use vstd::string::StrSliceExecFns;
use vstd::multiset::Multiset;

verus! {

broadcast use vstd::seq_lib::group_to_multiset_ensures, vstd::multiset::group_multiset_axioms;

/// Lexicographic order of character sequences, characters compared by code
/// point; it is the order of `String`s, whose bytes are UTF-8.
pub open spec fn seq_lt(a: Seq<char>, b: Seq<char>) -> bool
    decreases a.len(),
{
    if a.len() == 0 {
        b.len() > 0
    } else if b.len() == 0 {
        false
    } else if a[0] != b[0] {
        a[0] < b[0]
    } else {
        seq_lt(a.drop_first(), b.drop_first())
    }
}

pub open spec fn seq_le(a: Seq<char>, b: Seq<char>) -> bool {
    seq_lt(a, b) || a == b
}

/// The order is strict and total.
pub proof fn lemma_seq_lt_total(a: Seq<char>, b: Seq<char>)
    ensures
        !seq_lt(a, a),
        seq_lt(a, b) ==> !seq_lt(b, a),
        a != b ==> seq_lt(a, b) || seq_lt(b, a),
    decreases a.len(),
{
    if a.len() > 0 && b.len() > 0 {
        lemma_seq_lt_total(a.drop_first(), b.drop_first());
        lemma_seq_lt_total(a.drop_first(), a.drop_first());
        if a[0] == b[0] && a.drop_first() == b.drop_first() {
            assert(a =~= seq![a[0]] + a.drop_first());
            assert(b =~= seq![b[0]] + b.drop_first());
        }
    } else if a.len() > 0 {
        lemma_seq_lt_total(a.drop_first(), a.drop_first());
    } else if b.len() == 0 {
        assert(a =~= b);
    }
}

pub proof fn lemma_seq_lt_transitive(a: Seq<char>, b: Seq<char>, c: Seq<char>)
    requires
        seq_lt(a, b),
        seq_lt(b, c),
    ensures
        seq_lt(a, c),
    decreases a.len(),
{
    if a.len() > 0 && b.len() > 0 && c.len() > 0 && a[0] == b[0] && b[0] == c[0] {
        lemma_seq_lt_transitive(a.drop_first(), b.drop_first(), c.drop_first());
    }
}

pub proof fn lemma_seq_le_transitive(a: Seq<char>, b: Seq<char>, c: Seq<char>)
    requires
        seq_le(a, b),
        seq_le(b, c),
    ensures
        seq_le(a, c),
{
    if seq_lt(a, b) && seq_lt(b, c) {
        lemma_seq_lt_transitive(a, b, c);
    }
}

proof fn lemma_seq_lt_skip(a: Seq<char>, b: Seq<char>, i: int)
    requires
        0 <= i <= a.len(),
        i <= b.len(),
        a.subrange(0, i) == b.subrange(0, i),
    ensures
        seq_lt(a, b) == seq_lt(a.subrange(i, a.len() as int), b.subrange(i, b.len() as int)),
    decreases i,
{
    if i > 0 {
        assert(a[0] == a.subrange(0, i)[0]);
        assert(b[0] == b.subrange(0, i)[0]);
        assert(a.drop_first().subrange(0, i - 1) =~= a.subrange(0, i).drop_first());
        assert(b.drop_first().subrange(0, i - 1) =~= b.subrange(0, i).drop_first());
        lemma_seq_lt_skip(a.drop_first(), b.drop_first(), i - 1);
        assert(a.drop_first().subrange(i - 1, a.len() - 1) =~= a.subrange(i, a.len() as int));
        assert(b.drop_first().subrange(i - 1, b.len() - 1) =~= b.subrange(i, b.len() as int));
    } else {
        assert(a.subrange(0, a.len() as int) =~= a);
        assert(b.subrange(0, b.len() as int) =~= b);
    }
}

/// Whether `a` comes before `b` in the order of their characters.
pub fn str_lt(a: &str, b: &str) -> (r: bool)
    ensures
        r == seq_lt(a@, b@),
{
    let la = a.unicode_len();
    let lb = b.unicode_len();
    let mut i: usize = 0;
    while i < la && i < lb
        invariant
            la == a@.len(),
            lb == b@.len(),
            i <= la,
            i <= lb,
            a@.subrange(0, i as int) == b@.subrange(0, i as int),
        decreases la - i,
    {
        let x = a.get_char(i);
        let y = b.get_char(i);
        if x != y {
            proof {
                lemma_seq_lt_skip(a@, b@, i as int);
                assert(a@.subrange(i as int, la as int)[0] == x);
                assert(b@.subrange(i as int, lb as int)[0] == y);
            }
            return x < y;
        }
        assert(a@.subrange(0, i + 1) =~= a@.subrange(0, i as int).push(x));
        assert(b@.subrange(0, i + 1) =~= b@.subrange(0, i as int).push(y));
        i = i + 1;
    }
    proof {
        lemma_seq_lt_skip(a@, b@, i as int);
    }
    i == la && i < lb
}

/// A value sorted by a text key.
pub trait SortKey {
    spec fn sort_key(&self) -> Seq<char>;

    fn key_str(&self) -> (s: &str)
        ensures
            s@ == self.sort_key(),
    ;
}

/// Whether the keys of `s` never decrease.
pub open spec fn sorted_by_key<T: SortKey>(s: Seq<T>) -> bool {
    forall|a: int, b: int| 0 <= a < b < s.len() ==> seq_le(#[trigger] s[a].sort_key(), #[trigger] s[b].sort_key())
}

/// The elements of `v` in reverse order.
fn reversed<T>(v: Vec<T>) -> (r: Vec<T>)
    ensures
        r@ == v@.reverse(),
{
    let mut v = v;
    let ghost orig = v@;
    let mut r: Vec<T> = Vec::new();
    while v.len() > 0
        invariant
            v@ == orig.subrange(0, v@.len() as int),
            r@.len() + v@.len() == orig.len(),
            forall|i: int| 0 <= i < r@.len() ==> #[trigger] r@[i] == orig[orig.len() - 1 - i],
        decreases v@.len(),
    {
        let x = v.pop().unwrap();
        r.push(x);
    }
    assert(r@ =~= orig.reverse());
    r
}

/// Whether the keys of `s` never increase.
pub open spec fn descending_by_key<T: SortKey>(s: Seq<T>) -> bool {
    forall|a: int, b: int| 0 <= a < b < s.len() ==> seq_le(#[trigger] s[b].sort_key(), #[trigger] s[a].sort_key())
}

/// Whether every key of `s` is at most every key of `t`.
pub open spec fn all_le<T: SortKey>(s: Seq<T>, t: Seq<T>) -> bool {
    forall|a: int, b: int| 0 <= a < s.len() && 0 <= b < t.len() ==> seq_le(#[trigger] s[a].sort_key(), #[trigger] t[b].sort_key())
}

/// Merges two sorted sequences; on equal keys the first one's element comes first.
fn merge_sorted<T: SortKey>(a: Vec<T>, b: Vec<T>) -> (r: Vec<T>)
    requires
        sorted_by_key(a@),
        sorted_by_key(b@),
    ensures
        sorted_by_key(r@),
        r@.to_multiset() == a@.to_multiset().add(b@.to_multiset()),
{
    let ghost (a0, b0) = (a@, b@);
    let mut ra = reversed(a);
    let mut rb = reversed(b);
    proof {
        a0.lemma_reverse_to_multiset();
        b0.lemma_reverse_to_multiset();
    }
    let mut out: Vec<T> = Vec::new();
    while ra.len() > 0 || rb.len() > 0
        invariant
            sorted_by_key(out@),
            descending_by_key(ra@),
            descending_by_key(rb@),
            all_le(out@, ra@),
            all_le(out@, rb@),
            out@.to_multiset().add(ra@.to_multiset()).add(rb@.to_multiset()) == a0.to_multiset().add(
                b0.to_multiset(),
            ),
        decreases ra@.len() + rb@.len(),
    {
        let take_a = if rb.len() == 0 {
            true
        } else if ra.len() == 0 {
            false
        } else {
            !str_lt(rb[rb.len() - 1].key_str(), ra[ra.len() - 1].key_str())
        };
        let ghost (ra_old, rb_old, out_old) = (ra@, rb@, out@);
        let x = if take_a {
            ra.pop().unwrap()
        } else {
            rb.pop().unwrap()
        };
        proof {
            if take_a && rb_old.len() > 0 {
                lemma_seq_lt_total(rb_old.last().sort_key(), x.sort_key());
            }
            if !take_a && ra_old.len() > 0 {
                lemma_seq_lt_total(rb_old.last().sort_key(), x.sort_key());
            }
            // x is at most everything that remains
            assert forall|b: int| 0 <= b < ra@.len() implies seq_le(x.sort_key(), #[trigger] ra@[b].sort_key()) by {
                if take_a {
                    assert(ra@[b] == ra_old[b]);
                } else {
                    assert(seq_le(ra_old.last().sort_key(), ra_old[b].sort_key()));
                    lemma_seq_le_transitive(x.sort_key(), ra_old.last().sort_key(), ra_old[b].sort_key());
                }
            }
            assert forall|b: int| 0 <= b < rb@.len() implies seq_le(x.sort_key(), #[trigger] rb@[b].sort_key()) by {
                if !take_a {
                    assert(rb@[b] == rb_old[b]);
                } else {
                    assert(seq_le(rb_old.last().sort_key(), rb_old[b].sort_key()));
                    lemma_seq_le_transitive(x.sort_key(), rb_old.last().sort_key(), rb_old[b].sort_key());
                }
            }
            if take_a {
                assert(ra_old =~= ra@.push(x));
            } else {
                assert(rb_old =~= rb@.push(x));
            }
        }
        out.push(x);
        proof {
            assert forall|i: int, j: int| 0 <= i < j < out@.len() implies seq_le(
                #[trigger] out@[i].sort_key(),
                #[trigger] out@[j].sort_key(),
            ) by {
                if j == out@.len() - 1 {
                    assert(out@[i] == out_old[i]);
                    if take_a {
                        assert(seq_le(out_old[i].sort_key(), ra_old[ra_old.len() - 1].sort_key()));
                    } else {
                        assert(seq_le(out_old[i].sort_key(), rb_old[rb_old.len() - 1].sort_key()));
                    }
                } else {
                    assert(out@[i] == out_old[i] && out@[j] == out_old[j]);
                }
            }
            assert forall|i: int, j: int| 0 <= i < out@.len() && 0 <= j < ra@.len() implies seq_le(
                #[trigger] out@[i].sort_key(),
                #[trigger] ra@[j].sort_key(),
            ) by {
                if i < out@.len() - 1 {
                    assert(out@[i] == out_old[i]);
                    assert(ra@[j] == ra_old[j]);
                }
            }
            assert forall|i: int, j: int| 0 <= i < out@.len() && 0 <= j < rb@.len() implies seq_le(
                #[trigger] out@[i].sort_key(),
                #[trigger] rb@[j].sort_key(),
            ) by {
                if i < out@.len() - 1 {
                    assert(out@[i] == out_old[i]);
                    assert(rb@[j] == rb_old[j]);
                }
            }
            assert(out@.to_multiset().add(ra@.to_multiset()).add(rb@.to_multiset())
                =~= out_old.to_multiset().add(ra_old.to_multiset()).add(rb_old.to_multiset()));
        }
    }
    proof {
        assert(ra@.to_multiset() =~= Multiset::empty());
        assert(rb@.to_multiset() =~= Multiset::empty());
        assert(out@.to_multiset() =~= out@.to_multiset().add(ra@.to_multiset()).add(rb@.to_multiset()));
    }
    out
}

/// Sorts by key; equal keys keep their order.
pub fn sort_by_key<T: SortKey>(v: Vec<T>) -> (r: Vec<T>)
    ensures
        sorted_by_key(r@),
        r@.to_multiset() == v@.to_multiset(),
    decreases v@.len(),
{
    if v.len() <= 1 {
        return v;
    }
    let mut a = v;
    let ghost whole = a@;
    let mid = a.len() / 2;
    let b = a.split_off(mid);
    proof {
        assert(whole =~= a@ + b@);
        vstd::seq_lib::lemma_multiset_commutative(a@, b@);
    }
    let sa = sort_by_key(a);
    let sb = sort_by_key(b);
    merge_sorted(sa, sb)
}

/// A value sorted by a number.
pub trait NumKey {
    spec fn num_key(&self) -> u128;

    fn key_num(&self) -> (k: u128)
        ensures
            k == self.num_key(),
    ;
}

/// Whether the numbers of `s` never decrease.
pub open spec fn sorted_by_num<T: NumKey>(s: Seq<T>) -> bool {
    forall|a: int, b: int| 0 <= a < b < s.len() ==> #[trigger] s[a].num_key() <= #[trigger] s[b].num_key()
}

/// Whether the keys of `s` never increase.
pub open spec fn descending_by_num<T: NumKey>(s: Seq<T>) -> bool {
    forall|a: int, b: int| 0 <= a < b < s.len() ==> #[trigger] s[b].num_key() <= #[trigger] s[a].num_key()
}

/// Whether every key of `s` is at most every key of `t`.
pub open spec fn all_le_num<T: NumKey>(s: Seq<T>, t: Seq<T>) -> bool {
    forall|a: int, b: int| 0 <= a < s.len() && 0 <= b < t.len() ==> #[trigger] s[a].num_key() <= #[trigger] t[b].num_key()
}

/// Merges two sorted sequences; on equal keys the first one's element comes first.
fn merge_sorted_num<T: NumKey>(a: Vec<T>, b: Vec<T>) -> (r: Vec<T>)
    requires
        sorted_by_num(a@),
        sorted_by_num(b@),
    ensures
        sorted_by_num(r@),
        r@.to_multiset() == a@.to_multiset().add(b@.to_multiset()),
{
    let ghost (a0, b0) = (a@, b@);
    let mut ra = reversed(a);
    let mut rb = reversed(b);
    proof {
        a0.lemma_reverse_to_multiset();
        b0.lemma_reverse_to_multiset();
    }
    let mut out: Vec<T> = Vec::new();
    while ra.len() > 0 || rb.len() > 0
        invariant
            sorted_by_num(out@),
            descending_by_num(ra@),
            descending_by_num(rb@),
            all_le_num(out@, ra@),
            all_le_num(out@, rb@),
            out@.to_multiset().add(ra@.to_multiset()).add(rb@.to_multiset()) == a0.to_multiset().add(
                b0.to_multiset(),
            ),
        decreases ra@.len() + rb@.len(),
    {
        let take_a = if rb.len() == 0 {
            true
        } else if ra.len() == 0 {
            false
        } else {
            !(rb[rb.len() - 1].key_num() < ra[ra.len() - 1].key_num())
        };
        let ghost (ra_old, rb_old, out_old) = (ra@, rb@, out@);
        let x = if take_a {
            ra.pop().unwrap()
        } else {
            rb.pop().unwrap()
        };
        proof {
            // x is at most everything that remains
            assert forall|b: int| 0 <= b < ra@.len() implies x.num_key() <= #[trigger] ra@[b].num_key() by {
                if take_a {
                    assert(ra@[b] == ra_old[b]);
                } else {
                    assert(ra_old.last().num_key() <= ra_old[b].num_key());
                    
                }
            }
            assert forall|b: int| 0 <= b < rb@.len() implies x.num_key() <= #[trigger] rb@[b].num_key() by {
                if !take_a {
                    assert(rb@[b] == rb_old[b]);
                } else {
                    assert(rb_old.last().num_key() <= rb_old[b].num_key());
                    
                }
            }
            if take_a {
                assert(ra_old =~= ra@.push(x));
            } else {
                assert(rb_old =~= rb@.push(x));
            }
        }
        out.push(x);
        proof {
            assert forall|i: int, j: int| 0 <= i < j < out@.len() implies #[trigger] out@[i].num_key()
                <= #[trigger] out@[j].num_key() by {
                if j == out@.len() - 1 {
                    assert(out@[i] == out_old[i]);
                    if take_a {
                        assert(out_old[i].num_key() <= ra_old[ra_old.len() - 1].num_key());
                    } else {
                        assert(out_old[i].num_key() <= rb_old[rb_old.len() - 1].num_key());
                    }
                } else {
                    assert(out@[i] == out_old[i] && out@[j] == out_old[j]);
                }
            }
            assert forall|i: int, j: int| 0 <= i < out@.len() && 0 <= j < ra@.len() implies #[trigger] out@[i].num_key()
                <= #[trigger] ra@[j].num_key() by {
                if i < out@.len() - 1 {
                    assert(out@[i] == out_old[i]);
                    assert(ra@[j] == ra_old[j]);
                }
            }
            assert forall|i: int, j: int| 0 <= i < out@.len() && 0 <= j < rb@.len() implies #[trigger] out@[i].num_key()
                <= #[trigger] rb@[j].num_key() by {
                if i < out@.len() - 1 {
                    assert(out@[i] == out_old[i]);
                    assert(rb@[j] == rb_old[j]);
                }
            }
            assert(out@.to_multiset().add(ra@.to_multiset()).add(rb@.to_multiset())
                =~= out_old.to_multiset().add(ra_old.to_multiset()).add(rb_old.to_multiset()));
        }
    }
    proof {
        assert(ra@.to_multiset() =~= Multiset::empty());
        assert(rb@.to_multiset() =~= Multiset::empty());
        assert(out@.to_multiset() =~= out@.to_multiset().add(ra@.to_multiset()).add(rb@.to_multiset()));
    }
    out
}

/// Sorts by key; equal keys keep their order.
pub fn sort_by_num<T: NumKey>(v: Vec<T>) -> (r: Vec<T>)
    ensures
        sorted_by_num(r@),
        r@.to_multiset() == v@.to_multiset(),
    decreases v@.len(),
{
    if v.len() <= 1 {
        return v;
    }
    let mut a = v;
    let ghost whole = a@;
    let mid = a.len() / 2;
    let b = a.split_off(mid);
    proof {
        assert(whole =~= a@ + b@);
        vstd::seq_lib::lemma_multiset_commutative(a@, b@);
    }
    let sa = sort_by_num(a);
    let sb = sort_by_num(b);
    merge_sorted_num(sa, sb)
}

/// Reordering a sequence reorders its image the same way.
pub proof fn lemma_multiset_map<T, V>(s1: Seq<T>, s2: Seq<T>, f: spec_fn(T) -> V)
    requires
        s1.to_multiset() == s2.to_multiset(),
    ensures
        s1.map_values(f).to_multiset() == s2.map_values(f).to_multiset(),
    decreases s1.len(),
{
    assert(s1.to_multiset().len() == s1.len());
    assert(s2.to_multiset().len() == s2.len());
    if s1.len() == 0 {
        assert(s2.len() == 0);
        assert(s1.map_values(f) =~= s2.map_values(f));
    } else {
        let x = s1[0];
        assert(s2.to_multiset().count(x) > 0);
        assert(s2.contains(x));
        let i = choose|i: int| 0 <= i < s2.len() && s2[i] == x;
        vstd::seq_lib::to_multiset_remove(s2, i);
        assert(s1 =~= s1.drop_first().insert(0, x));
        vstd::seq_lib::to_multiset_insert(s1.drop_first(), 0, x);
        assert(s1.drop_first().to_multiset() =~= s2.remove(i).to_multiset());
        lemma_multiset_map(s1.drop_first(), s2.remove(i), f);
        assert(s1.map_values(f) =~= s1.drop_first().map_values(f).insert(0, f(x)));
        assert(s2.map_values(f) =~= s2.remove(i).map_values(f).insert(i, f(x)));
        vstd::seq_lib::to_multiset_insert(s1.drop_first().map_values(f), 0, f(x));
        vstd::seq_lib::to_multiset_insert(s2.remove(i).map_values(f), i, f(x));
    }
}

} // verus!
