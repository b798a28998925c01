//! Insertion-ordered, duplicate-suppressing step sequences.
//!
//! The traversal commits build and run steps in the order it meets them;
//! a step text that was already committed is dropped. The result keeps the
//! first-seen order of the distinct texts — set semantics for membership,
//! list semantics for order.

use vstd::prelude::*;

verus! {

/// One step of the duplicate-suppressing accumulation: append `x` unless
/// it is already present.
pub open spec fn insert_step(acc: Seq<Seq<char>>, x: Seq<char>) -> Seq<Seq<char>> {
    if acc.contains(x) {
        acc
    } else {
        acc.push(x)
    }
}

/// Accumulate every element of `xs`, in order, into `acc`,
/// suppressing duplicates.
pub open spec fn insert_steps(acc: Seq<Seq<char>>, xs: Seq<Seq<char>>) -> Seq<Seq<char>>
    decreases xs.len(),
{
    if xs.len() == 0 {
        acc
    } else {
        insert_steps(insert_step(acc, xs[0]), xs.drop_first())
    }
}

/// The distinct elements of `xs` in first-seen order.
pub open spec fn dedup(xs: Seq<Seq<char>>) -> Seq<Seq<char>> {
    insert_steps(Seq::empty(), xs)
}

/// No two positions of `s` hold the same text.
pub open spec fn no_dup(s: Seq<Seq<char>>) -> bool {
    forall|i: int, j: int| 0 <= i < j < s.len() ==> s[i] != s[j]
}

/// Accumulation processes a concatenation left part first.
pub proof fn lemma_insert_steps_app(acc: Seq<Seq<char>>, a: Seq<Seq<char>>, b: Seq<Seq<char>>)
    ensures
        insert_steps(acc, a + b) == insert_steps(insert_steps(acc, a), b),
    decreases a.len(),
{
    if a.len() == 0 {
        assert(a + b =~= b);
    } else {
        assert((a + b)[0] == a[0]);
        assert((a + b).drop_first() =~= a.drop_first() + b);
        lemma_insert_steps_app(insert_step(acc, a[0]), a.drop_first(), b);
    }
}

/// Accumulating one more element is one more accumulation step.
pub proof fn lemma_insert_steps_push(acc: Seq<Seq<char>>, xs: Seq<Seq<char>>, x: Seq<char>)
    ensures
        insert_steps(acc, xs.push(x)) == insert_step(insert_steps(acc, xs), x),
{
    let one = seq![x];
    assert(xs.push(x) =~= xs + one);
    lemma_insert_steps_app(acc, xs, one);
    let mid = insert_steps(acc, xs);
    assert(one.len() == 1 && one[0] == x);
    assert(one.drop_first() =~= Seq::<Seq<char>>::empty());
    assert(insert_steps(mid, one) == insert_steps(insert_step(mid, x), one.drop_first()));
    assert(insert_steps(insert_step(mid, x), Seq::<Seq<char>>::empty()) == insert_step(mid, x));
}

/// Accumulation adds exactly the texts of `xs` to those of `acc`.
pub proof fn lemma_insert_steps_contains(
    acc: Seq<Seq<char>>,
    xs: Seq<Seq<char>>,
    y: Seq<char>,
)
    ensures
        insert_steps(acc, xs).contains(y) <==> acc.contains(y) || xs.contains(y),
    decreases xs.len(),
{
    if xs.len() == 0 {
    } else {
        let acc1 = insert_step(acc, xs[0]);
        lemma_insert_steps_contains(acc1, xs.drop_first(), y);
        // membership after one insertion step
        if !acc.contains(xs[0]) {
            assert(acc.push(xs[0])[acc.len() as int] == xs[0]);
            assert(forall|k: int|
                0 <= k < acc.len() ==> acc.push(xs[0])[k] == acc[k]);
            if acc.contains(y) {
                let k = choose|k: int| 0 <= k < acc.len() && acc[k] == y;
                assert(acc.push(xs[0])[k] == y);
            }
            if acc1.contains(y) && y != xs[0] {
                let k = choose|k: int| 0 <= k < acc1.len() && acc1[k] == y;
                assert(0 <= k < acc.len());
            }
        }
        if xs.contains(y) && xs[0] != y {
            let k = choose|k: int| 0 <= k < xs.len() && xs[k] == y;
            assert(xs.drop_first()[k - 1] == y);
        }
        if xs.drop_first().contains(y) {
            let k = choose|k: int| 0 <= k < xs.drop_first().len() && xs.drop_first()[k] == y;
            assert(xs[k + 1] == y);
        }
    }
}

/// Accumulation never creates a duplicate.
pub proof fn lemma_insert_steps_no_dup(acc: Seq<Seq<char>>, xs: Seq<Seq<char>>)
    requires
        no_dup(acc),
    ensures
        no_dup(insert_steps(acc, xs)),
    decreases xs.len(),
{
    if xs.len() == 0 {
    } else {
        let acc1 = insert_step(acc, xs[0]);
        if !acc.contains(xs[0]) {
            assert forall|i: int, j: int| 0 <= i < j < acc1.len() implies acc1[i] != acc1[j] by {
                if j == acc.len() as int {
                    assert(acc1[j] == xs[0]);
                    assert(acc1[i] == acc[i]);
                    if acc[i] == xs[0] {
                        assert(acc.contains(xs[0]));
                    }
                }
            }
        }
        lemma_insert_steps_no_dup(acc1, xs.drop_first());
    }
}

/// The de-duplicated form of any step sequence holds no duplicates.
pub proof fn lemma_dedup_no_dup(xs: Seq<Seq<char>>)
    ensures
        no_dup(dedup(xs)),
{
    lemma_insert_steps_no_dup(Seq::empty(), xs);
}

/// De-duplication keeps exactly the texts that occur in the input.
pub proof fn lemma_dedup_contains(xs: Seq<Seq<char>>, y: Seq<char>)
    ensures
        dedup(xs).contains(y) <==> xs.contains(y),
{
    lemma_insert_steps_contains(Seq::empty(), xs, y);
}

/// However many entries contribute the same step text, the de-duplicated
/// sequence holds it exactly once.
pub proof fn lemma_dedup_all_equal(xs: Seq<Seq<char>>, x: Seq<char>)
    requires
        xs.len() > 0,
        forall|i: int| 0 <= i < xs.len() ==> xs[i] == x,
    ensures
        dedup(xs) == seq![x],
    decreases xs.len(),
{
    if xs.len() == 1 {
        assert(xs.drop_first() =~= Seq::<Seq<char>>::empty());
        assert(insert_step(Seq::<Seq<char>>::empty(), x) =~= seq![x]);
        assert(dedup(xs) == insert_steps(insert_step(Seq::empty(), xs[0]), xs.drop_first()));
    } else {
        lemma_dedup_all_equal(xs.drop_last(), x);
        lemma_insert_steps_push(Seq::empty(), xs.drop_last(), xs.last());
        assert(xs.drop_last().push(xs.last()) =~= xs);
        assert(seq![x].contains(x)) by {
            assert(seq![x][0] == x);
        }
    }
}

/// An insertion-ordered set of step texts: the exec accumulator behind the
/// build-step and run-step sequences.
pub struct StepSet {
    items: Vec<String>,
}

impl View for StepSet {
    type V = Seq<Seq<char>>;

    closed spec fn view(&self) -> Seq<Seq<char>> {
        self.items.deep_view()
    }
}

impl StepSet {
    /// An empty accumulator.
    pub fn new() -> (r: StepSet)
        ensures
            r@ == Seq::<Seq<char>>::empty(),
    {
        let r = StepSet { items: Vec::new() };
        proof {
            assert(r@ =~= Seq::<Seq<char>>::empty());
        }
        r
    }

    /// Append `s` unless an equal text is already present.
    pub fn insert(&mut self, s: String)
        ensures
            final(self)@ == insert_step(old(self)@, s@),
    {
        let n = self.items.len();
        let mut i: usize = 0;
        while i < n
            invariant
                n == self.items.len(),
                i <= n,
                forall|k: int| 0 <= k < i ==> self@[k] != s@,
                self == old(self),
            decreases n - i,
        {
            if self.items[i] == s {
                proof {
                    assert(self@[i as int] == s@);
                    assert(self@.contains(s@));
                }
                return ;
            }
            i += 1;
        }
        proof {
            if self@.contains(s@) {
                let k = choose|k: int| 0 <= k < self@.len() && self@[k] == s@;
                assert(self@[k] != s@);
            }
        }
        self.items.push(s);
        proof {
            assert(self@ =~= old(self)@.push(s@));
        }
    }

    /// Hand the accumulated texts out, in first-seen order.
    pub fn into_vec(self) -> (v: Vec<String>)
        ensures
            v.deep_view() == self@,
    {
        self.items
    }
}

} // verus!
