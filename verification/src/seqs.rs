//! Ways to speak of a scan over a sequence: the first element that meets a
//! condition, and the elements that meet it in their order.
use vstd::prelude::*;

verus! {

/// The index of the first element from `from` on that meets `p`, or the length
/// where none does.
pub open spec fn first_from<A>(s: Seq<A>, p: spec_fn(A) -> bool, from: int) -> int
    decreases s.len() - from,
{
    if from < 0 || from >= s.len() {
        s.len() as int
    } else if p(s[from]) {
        from
    } else {
        first_from(s, p, from + 1)
    }
}

/// The index of the first element that meets `p`, or the length.
pub open spec fn first_where<A>(s: Seq<A>, p: spec_fn(A) -> bool) -> int {
    first_from(s, p, 0)
}

/// The first element that meets `p`.
pub open spec fn find_where<A>(s: Seq<A>, p: spec_fn(A) -> bool) -> Option<A> {
    if first_where(s, p) < s.len() {
        Some(s[first_where(s, p)])
    } else {
        None
    }
}

/// Whether some element meets `p`.
pub open spec fn any_where<A>(s: Seq<A>, p: spec_fn(A) -> bool) -> bool {
    first_where(s, p) < s.len()
}

/// Those of the first `n` elements that meet `p`, in order.
pub open spec fn kept<A>(s: Seq<A>, p: spec_fn(A) -> bool, n: int) -> Seq<A>
    decreases n,
{
    if n <= 0 {
        Seq::empty()
    } else if p(s[n - 1]) {
        kept(s, p, n - 1).push(s[n - 1])
    } else {
        kept(s, p, n - 1)
    }
}

pub proof fn lemma_first_from<A>(s: Seq<A>, p: spec_fn(A) -> bool, from: int)
    requires
        0 <= from <= s.len(),
    ensures
        from <= first_from(s, p, from) <= s.len(),
        first_from(s, p, from) < s.len() ==> p(s[first_from(s, p, from)]),
        forall|j: int| from <= j < first_from(s, p, from) ==> !p(#[trigger] s[j]),
    decreases s.len() - from,
{
    if from < s.len() && !p(s[from]) {
        lemma_first_from(s, p, from + 1);
    }
}

/// The scan stops exactly at `at` when `at` meets `p` and nothing before does.
pub proof fn lemma_first_is<A>(s: Seq<A>, p: spec_fn(A) -> bool, at: int)
    requires
        0 <= at < s.len(),
        p(s[at]),
        forall|j: int| 0 <= j < at ==> !p(#[trigger] s[j]),
    ensures
        first_where(s, p) == at,
{
    lemma_first_from(s, p, 0);
}

/// What a concatenation contains, one of its parts contains.
pub proof fn lemma_either<A>(a: Seq<A>, b: Seq<A>, x: A)
    ensures
        (a + b).contains(x) == (a.contains(x) || b.contains(x)),
{
    let both = a + b;
    if a.contains(x) {
        let i = choose|i: int| 0 <= i < a.len() && a[i] == x;
        assert(both[i] == x);
    }
    if b.contains(x) {
        let i = choose|i: int| 0 <= i < b.len() && b[i] == x;
        assert(both[a.len() + i] == x);
    }
    if both.contains(x) {
        let i = choose|i: int| 0 <= i < both.len() && both[i] == x;
        if i < a.len() {
            assert(a[i] == x);
        } else {
            assert(b[i - a.len()] == x);
        }
    }
}

/// A sequence with one more item contains that item, and what it contained before.
pub proof fn lemma_pushed<A>(a: Seq<A>, last: A, x: A)
    ensures
        a.push(last).contains(x) == (a.contains(x) || x == last),
{
    let all = a.push(last);
    if a.contains(x) {
        let i = choose|i: int| 0 <= i < a.len() && a[i] == x;
        assert(all[i] == x);
    }
    assert(all[a.len() as int] == last);
    if all.contains(x) {
        let i = choose|i: int| 0 <= i < all.len() && all[i] == x;
        if i < a.len() {
            assert(a[i] == x);
        }
    }
}

/// What is kept of a sequence is what it contains and what meets the condition.
pub proof fn lemma_kept<A>(s: Seq<A>, p: spec_fn(A) -> bool, n: int, x: A)
    requires
        0 <= n <= s.len(),
    ensures
        kept(s, p, n).contains(x) == (p(x) && s.take(n).contains(x)),
    decreases n,
{
    if n > 0 {
        lemma_kept(s, p, n - 1, x);
        assert(s.take(n) =~= s.take(n - 1).push(s[n - 1]));
        lemma_pushed(s.take(n - 1), s[n - 1], x);
        lemma_pushed(kept(s, p, n - 1), s[n - 1], x);
    }
}

} // verus!
