//! The elements of a sequence that have a property.
use vstd::prelude::*;

verus! {

/// Whether `i` is the lowest index at which `p` holds.
pub open spec fn is_first<T>(s: Seq<T>, p: spec_fn(T) -> bool, i: int) -> bool {
    &&& 0 <= i < s.len()
    &&& p(s[i])
    &&& forall|j: int| #![trigger s[j]] 0 <= j < i ==> !p(s[j])
}

/// The lowest index at which `p` holds, if it holds anywhere.
pub open spec fn first<T>(s: Seq<T>, p: spec_fn(T) -> bool) -> Option<int> {
    if exists|i: int| is_first(s, p, i) {
        Some(choose|i: int| is_first(s, p, i))
    } else {
        None
    }
}

/// The lowest index is unique.
pub proof fn lemma_first_found<T>(s: Seq<T>, p: spec_fn(T) -> bool, i: int)
    requires
        is_first(s, p, i),
    ensures
        first(s, p) == Some(i),
{
    let k = choose|k: int| is_first(s, p, k);
    assert(is_first(s, p, k));
    if k < i {
        assert(!p(s[k]));
    } else if i < k {
        assert(!p(s[i]));
    }
}

/// Where the property holds at no index, there is no first one.
pub proof fn lemma_first_absent<T>(s: Seq<T>, p: spec_fn(T) -> bool)
    requires
        forall|j: int| #![trigger s[j]] 0 <= j < s.len() ==> !p(s[j]),
    ensures
        first(s, p) is None,
{
    if first(s, p) is Some {
        let k = choose|k: int| is_first(s, p, k);
        assert(!p(s[k]));
    }
}

/// Where the property holds at some index, there is a first one, no later.
pub proof fn lemma_first_exists<T>(s: Seq<T>, p: spec_fn(T) -> bool, i: int)
    requires
        0 <= i < s.len(),
        p(s[i]),
    ensures
        first(s, p) is Some,
        is_first(s, p, first(s, p)->0),
        first(s, p)->0 <= i,
    decreases i,
{
    if forall|j: int| #![trigger s[j]] 0 <= j < i ==> !p(s[j]) {
        assert(is_first(s, p, i));
        lemma_first_found(s, p, i);
    } else {
        let j = choose|j: int| #![trigger s[j]] 0 <= j < i && p(s[j]);
        lemma_first_exists(s, p, j);
    }
}

/// What [`first`] says of the sequence, read off its result.
pub proof fn lemma_first<T>(s: Seq<T>, p: spec_fn(T) -> bool)
    ensures
        match first(s, p) {
            Some(i) => is_first(s, p, i),
            None => forall|j: int| #![trigger s[j]] 0 <= j < s.len() ==> !p(s[j]),
        },
{
    if first(s, p) is None {
        assert forall|j: int| #![trigger s[j]] 0 <= j < s.len() implies !p(s[j]) by {
            if p(s[j]) {
                lemma_first_exists(s, p, j);
            }
        }
    }
}

/// A filter of a prefix grows by the element behind it, if that passes.
pub proof fn lemma_filter_step<T>(s: Seq<T>, p: spec_fn(T) -> bool, i: int)
    requires
        0 <= i < s.len(),
    ensures
        s.take(i + 1).filter(p) == if p(s[i]) {
            s.take(i).filter(p).push(s[i])
        } else {
            s.take(i).filter(p)
        },
{
    reveal(Seq::filter);
    assert(s.take(i + 1).drop_last() =~= s.take(i));
}

/// Filtering twice keeps what passes both tests.
pub proof fn lemma_filter_twice<T>(
    s: Seq<T>,
    p: spec_fn(T) -> bool,
    q: spec_fn(T) -> bool,
    both: spec_fn(T) -> bool,
)
    requires
        forall|x: T| #[trigger] both(x) == (p(x) && q(x)),
    ensures
        s.filter(p).filter(q) == s.filter(both),
    decreases s.len(),
{
    reveal(Seq::filter);
    if s.len() > 0 {
        let rest = s.drop_last();
        lemma_filter_twice(rest, p, q, both);
        assert(both(s.last()) == (p(s.last()) && q(s.last())));
        if p(s.last()) {
            assert(rest.filter(p).push(s.last()).drop_last() =~= rest.filter(p));
        }
    }
}

/// A test that everything passes keeps everything.
pub proof fn lemma_filter_all<T>(s: Seq<T>, p: spec_fn(T) -> bool)
    requires
        forall|i: int| 0 <= i < s.len() ==> p(#[trigger] s[i]),
    ensures
        s.filter(p) == s,
    decreases s.len(),
{
    reveal(Seq::filter);
    if s.len() > 0 {
        assert forall|i: int| 0 <= i < s.drop_last().len() implies p(
            #[trigger] s.drop_last()[i],
        ) by {
            assert(s.drop_last()[i] == s[i]);
        }
        lemma_filter_all(s.drop_last(), p);
        assert(s.drop_last().push(s.last()) =~= s);
    }
}

/// What a filtered sequence contains.
pub proof fn lemma_filtered<T>(s: Seq<T>, p: spec_fn(T) -> bool, x: T)
    ensures
        s.filter(p).contains(x) <==> s.contains(x) && p(x),
    decreases s.len(),
{
    reveal(Seq::filter);
    if s.len() > 0 {
        let rest = s.drop_last();
        let kept = rest.filter(p);
        lemma_filtered(rest, p, x);
        assert(s =~= rest.push(s.last()));
        if s.contains(x) && x != s.last() {
            let k = s.index_of(x);
            assert(rest[k] == x);
        }
        if rest.contains(x) {
            let k = rest.index_of(x);
            assert(s[k] == x);
        }
        if x == s.last() {
            assert(s[s.len() - 1] == x);
        }
        if p(s.last()) {
            let more = kept.push(s.last());
            assert(more[kept.len() as int] == s.last());
            if kept.contains(x) {
                let k = kept.index_of(x);
                assert(more[k] == x);
            }
            if more.contains(x) && x != s.last() {
                let k = more.index_of(x);
                assert(kept[k] == x);
            }
        }
    }
}

/// Keep the elements that pass a test, in order.
pub(crate) fn retain<T, F: Fn(&T) -> bool>(
    items: &mut Vec<T>,
    keep: F,
    Ghost(p): Ghost<spec_fn(T) -> bool>,
)
    requires
        forall|x: &T| #[trigger] call_requires(keep, (x,)),
        forall|x: &T, b: bool| #[trigger] call_ensures(keep, (x,), b) ==> b == p(*x),
    ensures
        final(items)@ == old(items)@.filter(p),
{
    let ghost before = items@;
    let ghost mut done: int = 0;
    let mut i: usize = 0;
    assert(before.take(0).filter(p) =~= Seq::empty()) by {
        reveal(Seq::filter);
    }
    while i < items.len()
        invariant
            forall|x: &T| #[trigger] call_requires(keep, (x,)),
            forall|x: &T, b: bool| #[trigger] call_ensures(keep, (x,), b) ==> b == p(*x),
            0 <= done <= before.len(),
            i <= items.len(),
            items@.take(i as int) == before.take(done).filter(p),
            items@.skip(i as int) == before.skip(done),
        decreases items.len() - i,
    {
        let ghost rest = items@;
        assert(before.skip(done).len() == rest.len() - i);
        assert(rest[i as int] == rest.skip(i as int)[0]);
        assert(before[done] == before.skip(done)[0]);
        assert(before.skip(done + 1) =~= before.skip(done).skip(1));
        proof {
            lemma_filter_step(before, p, done);
        }
        if keep(&items[i]) {
            assert(rest.take(i + 1) =~= rest.take(i as int).push(rest[i as int]));
            assert(rest.skip(i + 1) =~= rest.skip(i as int).skip(1));
            i = i + 1;
        } else {
            items.remove(i);
            assert(items@.take(i as int) =~= rest.take(i as int));
            assert(items@.skip(i as int) =~= rest.skip(i as int).skip(1));
        }
        proof {
            done = done + 1;
        }
    }
    assert(items@.skip(i as int).len() == 0);
    assert(before.take(done) =~= before);
    assert(items@ =~= items@.take(i as int));
}

} // verus!
