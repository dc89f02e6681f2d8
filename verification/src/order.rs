//! Orders used to sort panes and tasks: lexicographic order of text, and a
//! stable sort by key.
use vstd::prelude::*;

verus! {

/// Lexicographic order of character sequences by code point, as `Ord` for
/// `str` orders UTF-8 text: -1, 0 or 1.
pub open spec fn order_chars(a: Seq<char>, b: Seq<char>) -> int
    decreases a.len(),
{
    if a.len() == 0 {
        if b.len() == 0 {
            0
        } else {
            -1
        }
    } else if b.len() == 0 {
        1
    } else if (a[0] as int) < (b[0] as int) {
        -1
    } else if (a[0] as int) > (b[0] as int) {
        1
    } else {
        order_chars(a.drop_first(), b.drop_first())
    }
}

/// The order of two integers: -1, 0 or 1.
pub open spec fn order_int(a: int, b: int) -> int {
    if a < b {
        -1
    } else if a > b {
        1
    } else {
        0
    }
}

pub proof fn lemma_order_chars_range(a: Seq<char>, b: Seq<char>)
    ensures
        -1 <= order_chars(a, b) <= 1,
    decreases a.len(),
{
    if a.len() > 0 && b.len() > 0 && (a[0] as int) == (b[0] as int) {
        lemma_order_chars_range(a.drop_first(), b.drop_first());
    }
}

/// Sequences are in order 0 exactly when they are equal.
pub proof fn lemma_order_chars_zero(a: Seq<char>, b: Seq<char>)
    ensures
        (order_chars(a, b) == 0) == (a == b),
    decreases a.len(),
{
    if a.len() == 0 && b.len() == 0 {
        assert(a =~= b);
    }
    if a.len() > 0 && b.len() > 0 {
        if (a[0] as int) == (b[0] as int) {
            lemma_order_chars_zero(a.drop_first(), b.drop_first());
            if a.drop_first() == b.drop_first() {
                assert(a[0] == b[0]);
                assert forall|k: int| 0 <= k < a.len() implies a[k] == b[k] by {
                    if k > 0 {
                        assert(a[k] == a.drop_first()[k - 1]);
                        assert(b[k] == b.drop_first()[k - 1]);
                    }
                }
                assert(a =~= b);
            }
        } else {
            assert(a[0] != b[0]);
        }
    }
}

/// Swapping the arguments negates the order.
pub proof fn lemma_order_chars_antisym(a: Seq<char>, b: Seq<char>)
    ensures
        order_chars(a, b) == -order_chars(b, a),
    decreases a.len(),
{
    if a.len() > 0 && b.len() > 0 && (a[0] as int) == (b[0] as int) {
        lemma_order_chars_antisym(a.drop_first(), b.drop_first());
    }
}

/// The order is transitive, and strict where either step is strict.
pub proof fn lemma_order_chars_trans(a: Seq<char>, b: Seq<char>, c: Seq<char>)
    requires
        order_chars(a, b) <= 0,
        order_chars(b, c) <= 0,
    ensures
        order_chars(a, c) <= 0,
        (order_chars(a, b) < 0 || order_chars(b, c) < 0) ==> order_chars(a, c) < 0,
    decreases a.len(),
{
    if a.len() > 0 && b.len() > 0 && c.len() > 0 {
        if (a[0] as int) == (b[0] as int) && (b[0] as int) == (c[0] as int) {
            lemma_order_chars_trans(a.drop_first(), b.drop_first(), c.drop_first());
        }
    }
}

/// The order of two strings by their characters.
pub fn order_text(a: &Vec<char>, b: &Vec<char>) -> (r: i8)
    ensures
        r as int == order_chars(a@, b@),
{
    let mut i: usize = 0;
    proof {
        assert(a@.skip(0) =~= a@);
        assert(b@.skip(0) =~= b@);
    }
    while i < a.len() && i < b.len()
        invariant
            i <= a.len(),
            i <= b.len(),
            order_chars(a@, b@) == order_chars(a@.skip(i as int), b@.skip(i as int)),
        decreases a.len() - i,
    {
        let x = a[i];
        let y = b[i];
        proof {
            assert(a@.skip(i as int)[0] == a@[i as int]);
            assert(b@.skip(i as int)[0] == b@[i as int]);
            assert(a@.skip(i as int).drop_first() =~= a@.skip(i + 1));
            assert(b@.skip(i as int).drop_first() =~= b@.skip(i + 1));
        }
        if x < y {
            return -1;
        }
        if x > y {
            return 1;
        }
        i += 1;
    }
    proof {
        assert(a@.skip(i as int).len() == a@.len() - i);
        assert(b@.skip(i as int).len() == b@.len() - i);
    }
    if i < a.len() {
        1
    } else if i < b.len() {
        -1
    } else {
        0
    }
}

/// A key by which items are sorted: a total preorder.
pub trait SortKey: Sized {
    spec fn key_le(self, other: Self) -> bool;

    proof fn lemma_key_le_total(a: Self, b: Self)
        ensures
            Self::key_le(a, b) || Self::key_le(b, a),
    ;

    proof fn lemma_key_le_trans(a: Self, b: Self, c: Self)
        requires
            Self::key_le(a, b),
            Self::key_le(b, c),
        ensures
            Self::key_le(a, c),
    ;

    fn le(&self, other: &Self) -> (r: bool)
        ensures
            r == Self::key_le(*self, *other),
    ;
}

/// `idx` lists each of `0..n` once.
pub open spec fn is_index_perm(idx: Seq<usize>, n: nat) -> bool {
    &&& idx.len() == n
    &&& forall|i: int| 0 <= i < idx.len() ==> #[trigger] idx[i] < n
    &&& forall|i: int, j: int| 0 <= i < idx.len() && 0 <= j < idx.len() && i != j ==> idx[i] != idx[j]
}

/// Listing `keys` in the order `idx` puts them in ascending order, and
/// items with equivalent keys keep their relative order: what a stable
/// sort by key (`sort_by_key`) does.
pub open spec fn stably_sorted<K: SortKey>(keys: Seq<K>, idx: Seq<usize>) -> bool {
    forall|i: int, j: int|
        #![trigger idx[i], idx[j]]
        0 <= i < j < idx.len() ==> K::key_le(keys[idx[i] as int], keys[idx[j] as int]) && (
        K::key_le(keys[idx[j] as int], keys[idx[i] as int]) ==> idx[i] < idx[j])
}

/// The order in which a stable sort by key lists the items whose keys are
/// `keys`: position `i` of the result holds the index of the item that
/// comes `i`-th.
pub fn stable_order<K: SortKey>(keys: &Vec<K>) -> (idx: Vec<usize>)
    ensures
        is_index_perm(idx@, keys@.len()),
        stably_sorted(keys@, idx@),
{
    let n = keys.len();
    let mut idx: Vec<usize> = Vec::new();
    for i in 0..n
        invariant
            n == keys@.len(),
            is_index_perm(idx@, i as nat),
            stably_sorted(keys@, idx@),
    {
        let mut p: usize = 0;
        while p < idx.len() && keys[idx[p]].le(&keys[i])
            invariant
                n == keys@.len(),
                i < n,
                is_index_perm(idx@, i as nat),
                p <= idx.len(),
                forall|q: int| 0 <= q < p ==> K::key_le(keys@[#[trigger] idx@[q] as int], keys@[i as int]),
            decreases idx.len() - p,
        {
            p += 1;
        }
        let ghost old_idx = idx@;
        proof {
            assert forall|q: int| p <= q < old_idx.len() implies K::key_le(
                keys@[i as int],
                keys@[#[trigger] old_idx[q] as int],
            ) && !K::key_le(keys@[old_idx[q] as int], keys@[i as int]) by {
                if q > p {
                    if K::key_le(keys@[old_idx[q] as int], keys@[i as int]) {
                        assert(K::key_le(keys@[old_idx[p as int] as int], keys@[old_idx[q] as int]));
                        K::lemma_key_le_trans(
                            keys@[old_idx[p as int] as int],
                            keys@[old_idx[q] as int],
                            keys@[i as int],
                        );
                    }
                }
                K::lemma_key_le_total(keys@[i as int], keys@[old_idx[q] as int]);
            }
        }
        idx.insert(p, i);
        proof {
            let new_idx = idx@;
            assert(new_idx == old_idx.insert(p as int, i));
            assert forall|a: int| 0 <= a < new_idx.len() implies #[trigger] new_idx[a] < i + 1 by {
                if a < p {
                    assert(new_idx[a] == old_idx[a]);
                } else if a > p {
                    assert(new_idx[a] == old_idx[a - 1]);
                }
            }
            assert forall|a: int, b: int|
                0 <= a < new_idx.len() && 0 <= b < new_idx.len() && a != b implies new_idx[a]
                != new_idx[b] by {
                let oa = if a < p {
                    a
                } else {
                    a - 1
                };
                let ob = if b < p {
                    b
                } else {
                    b - 1
                };
                if a != p as int && b != p as int {
                    assert(new_idx[a] == old_idx[oa]);
                    assert(new_idx[b] == old_idx[ob]);
                } else if a == p as int {
                    assert(new_idx[b] == old_idx[ob]);
                } else {
                    assert(new_idx[a] == old_idx[oa]);
                }
            }
            assert forall|a: int, b: int| 0 <= a < b < new_idx.len() implies K::key_le(
                keys@[new_idx[a] as int],
                keys@[new_idx[b] as int],
            ) && (K::key_le(keys@[new_idx[b] as int], keys@[new_idx[a] as int]) ==> new_idx[a]
                < new_idx[b]) by {
                let oa = if a < p {
                    a
                } else {
                    a - 1
                };
                let ob = if b < p {
                    b
                } else {
                    b - 1
                };
                if a != p as int && b != p as int {
                    assert(new_idx[a] == old_idx[oa]);
                    assert(new_idx[b] == old_idx[ob]);
                    assert(old_idx[oa] == old_idx[oa]);
                    assert(oa < ob);
                } else if a == p as int {
                    assert(new_idx[b] == old_idx[ob]);
                    assert(ob >= p);
                } else {
                    assert(new_idx[a] == old_idx[oa]);
                    assert(oa < p);
                    assert(old_idx[oa] < i);
                }
            }
        }
    }
    idx
}

/// An index permutation lists every index: each `j < n` stands at some
/// position.
pub proof fn lemma_index_perm_onto(idx: Seq<usize>, n: nat, j: int)
    requires
        is_index_perm(idx, n),
        0 <= j < n,
    ensures
        exists|p: int| 0 <= p < idx.len() && idx[p] == j,
{
    let t = Seq::new(idx.len(), |i: int| idx[i] as int);
    assert(t.no_duplicates()) by {
        assert forall|a: int, b: int| 0 <= a < t.len() && 0 <= b < t.len() && a != b implies t[a]
            != t[b] by {
            assert(idx[a] != idx[b]);
        }
    }
    t.unique_seq_to_set();
    vstd::set_lib::lemma_int_range(0, n as int);
    let range = vstd::set_lib::set_int_range(0, n as int);
    assert(t.to_set().subset_of(range)) by {
        assert forall|v: int| t.to_set().contains(v) implies range.contains(v) by {
            let p = choose|p: int| 0 <= p < t.len() && t[p] == v;
            assert(idx[p] < n);
        }
    }
    vstd::set_lib::lemma_subset_equality(t.to_set(), range);
    assert(range.contains(j));
    assert(t.to_set().contains(j));
    let p = choose|p: int| 0 <= p < t.len() && t[p] == j;
    assert(idx[p] == j);
}

} // verus!
