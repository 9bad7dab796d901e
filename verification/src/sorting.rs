//! A stable sort by an integer key, as `sort_by` on a key comparison does.
use vstd::prelude::*;

verus! {

broadcast use vstd::seq_lib::group_to_multiset_ensures;

/// Values that are ordered by an integer key.
pub trait SortKey {
    spec fn sort_key(&self) -> u64;

    fn get_sort_key(&self) -> (r: u64)
        ensures
            r == self.sort_key(),
    ;
}

/// The position at which a stable insertion puts a value of key `k`: after
/// every leading value whose key is at most `k`.
pub open spec fn insert_pos<T: SortKey>(s: Seq<T>, k: u64) -> int
    decreases s.len(),
{
    if s.len() == 0 {
        0
    } else if s[0].sort_key() > k {
        0
    } else {
        1 + insert_pos(s.drop_first(), k)
    }
}

/// The stable sort of a sequence by key: each value, in order, inserted
/// after the values of equal or smaller key already placed.
pub open spec fn stable_sorted<T: SortKey>(s: Seq<T>) -> Seq<T>
    decreases s.len(),
{
    if s.len() == 0 {
        Seq::empty()
    } else {
        let rest = stable_sorted(s.drop_last());
        rest.insert(insert_pos(rest, s.last().sort_key()), s.last())
    }
}

pub open spec fn keys_ascending<T: SortKey>(s: Seq<T>) -> bool {
    forall|i: int, j: int| 0 <= i <= j < s.len() ==> s[i].sort_key() <= s[j].sort_key()
}

proof fn lemma_insert_pos_bounds<T: SortKey>(s: Seq<T>, k: u64)
    ensures
        0 <= insert_pos(s, k) <= s.len(),
        forall|i: int| 0 <= i < insert_pos(s, k) ==> s[i].sort_key() <= k,
        insert_pos(s, k) < s.len() ==> s[insert_pos(s, k)].sort_key() > k,
    decreases s.len(),
{
    if s.len() > 0 && s[0].sort_key() <= k {
        lemma_insert_pos_bounds(s.drop_first(), k);
        assert forall|i: int| 0 <= i < insert_pos(s, k) implies s[i].sort_key() <= k by {
            if i > 0 {
                assert(s[i] == s.drop_first()[i - 1]);
            }
        }
    }
}

proof fn lemma_insert_keeps_ascending<T: SortKey>(s: Seq<T>, x: T)
    requires
        keys_ascending(s),
    ensures
        keys_ascending(s.insert(insert_pos(s, x.sort_key()), x)),
{
    lemma_insert_pos_bounds(s, x.sort_key());
    let p = insert_pos(s, x.sort_key());
    let t = s.insert(p, x);
    assert forall|i: int, j: int| 0 <= i <= j < t.len() implies t[i].sort_key() <= t[j].sort_key() by {
        if j < p {
        } else if i > p {
            assert(t[i] == s[i - 1] && t[j] == s[j - 1]);
        } else if i == p && j > p {
            assert(t[j] == s[j - 1]);
            assert(s[p].sort_key() > x.sort_key());
            assert(s[p].sort_key() <= s[j - 1].sort_key());
        } else if i < p && j >= p {
            if j > p {
                assert(t[j] == s[j - 1]);
                assert(s[i].sort_key() <= s[j - 1].sort_key());
            }
        }
    }
}

/// The stable sort orders its result by ascending key.
pub proof fn lemma_stable_sorted_ascending<T: SortKey>(s: Seq<T>)
    ensures
        keys_ascending(stable_sorted(s)),
    decreases s.len(),
{
    if s.len() > 0 {
        lemma_stable_sorted_ascending(s.drop_last());
        lemma_insert_keeps_ascending(stable_sorted(s.drop_last()), s.last());
    }
}

/// The stable sort keeps every value, each as often as it occurs.
pub proof fn lemma_stable_sorted_permutes<T: SortKey>(s: Seq<T>)
    ensures
        stable_sorted(s).to_multiset() == s.to_multiset(),
        stable_sorted(s).len() == s.len(),
    decreases s.len(),
{
    broadcast use vstd::seq_lib::to_multiset_insert, vstd::seq_lib::to_multiset_build;

    if s.len() > 0 {
        lemma_stable_sorted_permutes(s.drop_last());
        let rest = stable_sorted(s.drop_last());
        lemma_insert_pos_bounds(rest, s.last().sort_key());
        assert(s.drop_last().push(s.last()) =~= s);
    }
}

fn find_insert_pos<T: SortKey>(s: &Vec<T>, k: u64) -> (r: usize)
    ensures
        r == insert_pos(s@, k),
        r <= s.len(),
{
    proof {
        lemma_insert_pos_bounds(s@, k);
    }
    let mut i: usize = 0;
    assert(s@.skip(0) =~= s@);
    while i < s.len()
        invariant
            i <= s.len(),
            insert_pos(s@, k) == i + insert_pos(s@.skip(i as int), k),
        decreases s.len() - i,
    {
        assert(s@.skip(i as int)[0] == s@[i as int]);
        if s[i].get_sort_key() > k {
            return i;
        }
        assert(s@.skip(i as int).drop_first() =~= s@.skip(i + 1));
        i = i + 1;
    }
    i
}

/// Sorts by ascending key, keeping values of equal key in their order.
pub fn stable_sort_by_key<T: SortKey>(v: Vec<T>) -> (r: Vec<T>)
    ensures
        r@ == stable_sorted(v@),
{
    let ghost input = v@;
    let len0 = v.len();
    assert(input.len() == len0);
    let mut res: Vec<T> = Vec::new();
    let mut v = v;
    let mut rev: Vec<T> = Vec::new();
    // Take the values out front to back.
    while v.len() > 0
        invariant
            rev@ + v@.reverse() =~= input.reverse(),
        decreases v.len(),
    {
        let x = v.pop().unwrap();
        rev.push(x);
        proof {
            let vv = v@;
            assert(vv.push(x).reverse() =~= seq![x] + vv.reverse());
        }
    }
    assert(rev@ =~= input.reverse());
    let mut i: usize = 0;
    let ghost n = rev@.len();
    while rev.len() > 0
        invariant
            rev@.len() + i == n,
            n == input.len(),
            n <= usize::MAX,
            forall|j: int| 0 <= j < rev@.len() ==> rev@[j] == input[n - 1 - j],
            res@ == stable_sorted(input.take(i as int)),
        decreases rev.len(),
    {
        let x = rev.pop().unwrap();
        proof {
            assert(x == input[i as int]);
            assert(input.take(i + 1).drop_last() =~= input.take(i as int));
            assert(input.take(i + 1).last() == x);
        }
        let p = find_insert_pos(&res, x.get_sort_key());
        res.insert(p, x);
        i = i + 1;
    }
    assert(input.take(n as int) =~= input);
    res
}

} // verus!
