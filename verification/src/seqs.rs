//! Facts about sequences that the rest of the library leans on.
use vstd::prelude::*;

verus! {

/// Filtering one more item.
pub proof fn lemma_filter_push<A>(s: Seq<A>, x: A, p: spec_fn(A) -> bool)
    ensures
        s.push(x).filter(p) == if p(x) {
            s.filter(p).push(x)
        } else {
            s.filter(p)
        },
{
    reveal(Seq::filter);
    assert(s.push(x).drop_last() =~= s);
}

/// What a filtered sequence holds, and that filtering repeats nothing.
pub proof fn lemma_filter_facts<A>(s: Seq<A>, p: spec_fn(A) -> bool)
    ensures
        forall|x: A| #[trigger] s.filter(p).contains(x) <==> s.contains(x) && p(x),
        s.no_duplicates() ==> s.filter(p).no_duplicates(),
        s.filter(p).len() <= s.len(),
    decreases s.len(),
{
    reveal(Seq::filter);
    if s.len() > 0 {
        let t = s.drop_last();
        let x = s.last();
        lemma_filter_facts(t, p);
        lemma_filter_push(t, x, p);
        assert(t.push(x) =~= s);
        let f = t.filter(p);
        assert forall|y: A| #[trigger] s.filter(p).contains(y) <==> s.contains(y) && p(y) by {
            if s.contains(y) && p(y) {
                let i = s.index_of(y);
                if i < t.len() {
                    assert(t[i] == y);
                    assert(f.contains(y));
                    let j = f.index_of(y);
                    assert(s.filter(p)[j] == y);
                } else {
                    assert(s.filter(p).last() == y);
                }
            }
            if s.filter(p).contains(y) {
                let i = s.filter(p).index_of(y);
                if i < f.len() {
                    assert(f[i] == y);
                    assert(f.contains(y));
                    assert(t.contains(y));
                    let j = t.index_of(y);
                    assert(s[j] == y);
                }
            }
        }
        if s.no_duplicates() {
            assert forall|i: int, j: int| 0 <= i < j < t.len() implies t[i] != t[j] by {
                assert(s[i] != s[j]);
            }
            assert forall|i: int, j: int| 0 <= i < j < s.filter(p).len() implies s.filter(p)[i] != s.filter(p)[j] by {
                assert(f[i] == s.filter(p)[i]);
                if j == f.len() {
                    assert(f.contains(f[i]));
                    assert(t.contains(f[i]));
                    let k = t.index_of(f[i]);
                    assert(s[k] == f[i]);
                    assert(s[k] != s[s.len() - 1]);
                } else {
                    assert(f[j] == s.filter(p)[j]);
                }
            }
        }
    }
}

/// Filtering by what holds of every item changes nothing.
pub proof fn lemma_filter_all<A>(s: Seq<A>, p: spec_fn(A) -> bool)
    requires
        forall|i: int| 0 <= i < s.len() ==> p(#[trigger] s[i]),
    ensures
        s.filter(p) == s,
    decreases s.len(),
{
    reveal(Seq::filter);
    if s.len() > 0 {
        lemma_filter_all(s.drop_last(), p);
        assert(s.drop_last().push(s.last()) =~= s);
    }
}

/// Two filters that agree on every item give the same sequence.
pub proof fn lemma_filter_agree<A>(s: Seq<A>, p: spec_fn(A) -> bool, q: spec_fn(A) -> bool)
    requires
        forall|i: int| 0 <= i < s.len() ==> p(#[trigger] s[i]) == q(s[i]),
    ensures
        s.filter(p) == s.filter(q),
    decreases s.len(),
{
    reveal(Seq::filter);
    if s.len() > 0 {
        lemma_filter_agree(s.drop_last(), p, q);
    }
}

/// Taking out the only occurrence of an item is filtering it out.
pub proof fn lemma_remove_is_filter<A>(s: Seq<A>, i: int)
    requires
        s.no_duplicates(),
        0 <= i < s.len(),
    ensures
        s.remove(i) == s.filter(|x: A| x != s[i]),
    decreases s.len(),
{
    reveal(Seq::filter);
    let t = s.drop_last();
    let p = |x: A| x != s[i];
    if i < t.len() {
        lemma_remove_is_filter(t, i);
        assert(t[i] == s[i]);
        assert(s.last() != s[i]);
        assert(s.remove(i) =~= t.remove(i).push(s.last()));
        lemma_filter_agree(t, p, |x: A| x != t[i]);
    } else {
        assert forall|j: int| 0 <= j < t.len() implies p(#[trigger] t[j]) by {
            assert(s[j] != s[i]);
        }
        lemma_filter_all(t, p);
        assert(s.remove(i) =~= t);
    }
}

/// The same items again.
pub fn copy_vec<T: Copy>(v: &Vec<T>) -> (r: Vec<T>)
    ensures
        r@ == v@,
{
    let mut r: Vec<T> = Vec::new();
    let mut i: usize = 0;
    while i < v.len()
        invariant
            i <= v@.len(),
            r@ == v@.take(i as int),
        decreases v@.len() - i,
    {
        r.push(v[i]);
        i += 1;
        proof {
            assert(r@ =~= v@.take(i as int));
        }
    }
    proof {
        assert(v@.take(i as int) =~= v@);
    }
    r
}

/// The first place a number stands at in a list.
pub fn position(v: &Vec<u32>, x: u32) -> (r: Option<usize>)
    ensures
        match r {
            Some(i) => v@.index_of_first(x) == Some(i as int) && i < v@.len() && v@.contains(x),
            None => !v@.contains(x) && v@.index_of_first(x) is None,
        },
{
    let mut i: usize = 0;
    while i < v.len()
        invariant
            i <= v@.len(),
            forall|j: int| 0 <= j < i ==> v@[j] != x,
        decreases v@.len() - i,
    {
        if v[i] == x {
            proof {
                v@.index_of_first_ensures(x);
                assert(v@.contains(v@[i as int]));
            }
            return Some(i);
        }
        i += 1;
    }
    proof {
        v@.index_of_first_ensures(x);
    }
    None
}

/// The same things, last first.
pub fn back_to_front<T>(v: Vec<T>) -> (r: Vec<T>)
    ensures
        r@ == v@.reverse(),
{
    let mut v = v;
    let ghost all = v@;
    let mut r: Vec<T> = Vec::new();
    proof {
        assert(all.take(v@.len() as int) =~= all);
        assert(r@ =~= all.reverse().take(0));
    }
    while v.len() > 0
        invariant
            v@.len() <= all.len(),
            v@ == all.take(v@.len() as int),
            r@ == all.reverse().take(all.len() - v@.len()),
        decreases v@.len(),
    {
        let ghost n = v@.len();
        if let Some(x) = v.pop() {
            r.push(x);
        }
        proof {
            assert(v@ =~= all.take(n - 1));
            assert(r@ =~= all.reverse().take(all.len() - n + 1));
        }
    }
    proof {
        assert(all.reverse().take(all.len() as int) =~= all.reverse());
    }
    r
}

} // verus!
