//! Symbol sets: insertion-ordered sets of declared names.
//!
//! A program keeps one symbol index per deduplicating section (sorts and
//! facts) and one set of bound symbols.  All three are `EgglogSymbols`: the
//! distinct symbols in first-insertion order.  The spec-level shape is a
//! duplicate-free `Seq<Seq<char>>`; `append_unique` is the ordered union
//! that every insertion-style operation refines.

use vstd::prelude::*;

verus! {

/// `s`, with `x` appended if not already present.
pub open spec fn push_unique<A>(s: Seq<A>, x: A) -> Seq<A> {
    if s.contains(x) {
        s
    } else {
        s.push(x)
    }
}

/// Ordered union: `a`, followed by each element of `b` not already seen,
/// in `b`'s order.
pub open spec fn append_unique<A>(a: Seq<A>, b: Seq<A>) -> Seq<A>
    decreases b.len(),
{
    if b.len() == 0 {
        a
    } else {
        push_unique(append_unique(a, b.drop_last()), b.last())
    }
}

/// An element is in `push_unique(s, x)` exactly when it is in `s` or is
/// `x`.
pub proof fn lemma_push_unique_contains<A>(s: Seq<A>, x: A)
    ensures
        forall|y: A| #[trigger] push_unique(s, x).contains(y) <==> s.contains(y) || y == x,
{
    assert forall|y: A| #[trigger] push_unique(s, x).contains(y) <==> s.contains(y) || y == x by {
        if s.contains(x) {
            if y == x {
                assert(push_unique(s, x).contains(y));
            }
        } else {
            if s.contains(y) {
                let i = choose|i: int| 0 <= i < s.len() && s[i] == y;
                assert(s.push(x)[i] == y);
            }
            if y == x {
                assert(s.push(x)[s.len() as int] == y);
            }
            if push_unique(s, x).contains(y) {
                let i = choose|i: int| 0 <= i < s.push(x).len() && s.push(x)[i] == y;
                if i < s.len() {
                    assert(s[i] == y);
                }
            }
        }
    }
}

/// Adding one element to a duplicate-free sequence keeps it
/// duplicate-free.
pub proof fn lemma_push_unique_no_duplicates<A>(s: Seq<A>, x: A)
    requires
        s.no_duplicates(),
    ensures
        push_unique(s, x).no_duplicates(),
{
    if !s.contains(x) {
        assert forall|i: int, j: int|
            0 <= i < j < s.push(x).len() implies s.push(x)[i] != s.push(x)[j] by {
            if j == s.len() {
                assert(s.push(x)[i] == s[i]);
                assert(s.contains(s[i]));
            }
        }
    }
}

/// An element is in the ordered union exactly when it is in either operand.
pub proof fn lemma_append_unique_contains<A>(a: Seq<A>, b: Seq<A>)
    ensures
        forall|x: A|
            #[trigger] append_unique(a, b).contains(x) <==> a.contains(x) || b.contains(x),
    decreases b.len(),
{
    if b.len() == 0 {
        assert forall|x: A|
            #[trigger] append_unique(a, b).contains(x) <==> a.contains(x) || b.contains(x) by {
            assert(!b.contains(x));
        }
    } else {
        lemma_append_unique_contains(a, b.drop_last());
        let b0 = b.drop_last();
        let u = append_unique(a, b0);
        let r = append_unique(a, b);
        assert forall|x: A| #[trigger] r.contains(x) <==> a.contains(x) || b.contains(x) by {
            assert(b.contains(x) <==> b0.contains(x) || x == b.last()) by {
                if b.contains(x) {
                    let i = choose|i: int| 0 <= i < b.len() && b[i] == x;
                    if i < b.len() - 1 {
                        assert(b0[i] == x);
                    }
                }
                if b0.contains(x) {
                    let i = choose|i: int| 0 <= i < b0.len() && b0[i] == x;
                    assert(b[i] == x);
                }
                if x == b.last() {
                    assert(b[b.len() - 1] == x);
                }
            }
            if u.contains(b.last()) {
                assert(r == u);
            } else {
                assert(r == u.push(b.last()));
                assert(r.contains(x) <==> u.contains(x) || x == b.last()) by {
                    if u.contains(x) {
                        let i = choose|i: int| 0 <= i < u.len() && u[i] == x;
                        assert(r[i] == x);
                    }
                    if x == b.last() {
                        assert(r[u.len() as int] == x);
                    }
                    if r.contains(x) {
                        let i = choose|i: int| 0 <= i < r.len() && r[i] == x;
                        if i < u.len() {
                            assert(u[i] == x);
                        }
                    }
                }
            }
        }
    }
}

/// The ordered union of duplicate-free-on-the-left operands is
/// duplicate-free.
pub proof fn lemma_append_unique_no_duplicates<A>(a: Seq<A>, b: Seq<A>)
    requires
        a.no_duplicates(),
    ensures
        append_unique(a, b).no_duplicates(),
    decreases b.len(),
{
    if b.len() > 0 {
        lemma_append_unique_no_duplicates(a, b.drop_last());
        let u = append_unique(a, b.drop_last());
        if !u.contains(b.last()) {
            assert forall|i: int, j: int|
                0 <= i < j < u.push(b.last()).len() implies u.push(b.last())[i] != u.push(
                b.last(),
            )[j] by {
                if j < u.len() {
                } else {
                    assert(u.push(b.last())[i] == u[i]);
                    assert(u.contains(u[i]));
                }
            }
        }
    }
}

/// The ordered union keeps its left operand as an unchanged prefix.
pub proof fn lemma_append_unique_prefix<A>(a: Seq<A>, b: Seq<A>)
    ensures
        append_unique(a, b).len() >= a.len(),
        append_unique(a, b).take(a.len() as int) == a,
        forall|i: int| 0 <= i < a.len() ==> #[trigger] append_unique(a, b)[i] == a[i],
    decreases b.len(),
{
    if b.len() == 0 {
        assert(append_unique(a, b).take(a.len() as int) =~= a);
    } else {
        lemma_append_unique_prefix(a, b.drop_last());
        assert(append_unique(a, b).take(a.len() as int) =~= a);
    }
}

/// Union with an empty left operand returns a duplicate-free right operand
/// unchanged.
pub proof fn lemma_append_unique_empty_left<A>(b: Seq<A>)
    requires
        b.no_duplicates(),
    ensures
        append_unique(Seq::<A>::empty(), b) == b,
    decreases b.len(),
{
    if b.len() == 0 {
        assert(append_unique(Seq::<A>::empty(), b) =~= b);
    } else {
        lemma_append_unique_empty_left(b.drop_last());
        let u = append_unique(Seq::<A>::empty(), b.drop_last());
        assert(u == b.drop_last());
        if b.drop_last().contains(b.last()) {
            let i = choose|i: int| 0 <= i < b.len() - 1 && b.drop_last()[i] == b.last();
            assert(b[i] == b[b.len() - 1]);
            assert(false);
        }
        assert(append_unique(Seq::<A>::empty(), b) =~= b);
    }
}

/// Appending one element at a time agrees with `push_unique`.
pub proof fn lemma_append_unique_push<A>(a: Seq<A>, b: Seq<A>, x: A)
    ensures
        append_unique(a, b.push(x)) == push_unique(append_unique(a, b), x),
{
    assert(b.push(x).drop_last() =~= b);
    assert(b.push(x).last() == x);
}

/// The ordered union is associative.
pub proof fn lemma_append_unique_assoc<A>(a: Seq<A>, b: Seq<A>, c: Seq<A>)
    ensures
        append_unique(append_unique(a, b), c) == append_unique(a, append_unique(b, c)),
    decreases c.len(),
{
    if c.len() == 0 {
    } else {
        let c0 = c.drop_last();
        let x = c.last();
        lemma_append_unique_assoc(a, b, c0);
        lemma_append_unique_contains(b, c0);
        lemma_append_unique_contains(a, append_unique(b, c0));
        lemma_append_unique_contains(append_unique(a, b), c0);
        lemma_append_unique_contains(a, b);
        if append_unique(b, c0).contains(x) {
            assert(append_unique(b, c) == append_unique(b, c0));
            assert(append_unique(a, append_unique(b, c)) == append_unique(
                a,
                append_unique(b, c0),
            ));
            assert(append_unique(append_unique(a, b), c0).contains(x));
            assert(append_unique(append_unique(a, b), c) == append_unique(
                append_unique(a, b),
                c0,
            ));
        } else {
            assert(append_unique(b, c) == append_unique(b, c0).push(x));
            lemma_append_unique_push(a, append_unique(b, c0), x);
            assert(append_unique(a, append_unique(b, c)) == push_unique(
                append_unique(a, append_unique(b, c0)),
                x,
            ));
            assert(append_unique(a, append_unique(b, c0)).contains(x) <==> a.contains(x)
                || b.contains(x) || c0.contains(x));
            assert(append_unique(append_unique(a, b), c0).contains(x) <==> a.contains(x)
                || b.contains(x) || c0.contains(x));
        }
    }
}

/// The length of the ordered union never exceeds the summed lengths.
pub proof fn lemma_append_unique_len_le<A>(a: Seq<A>, b: Seq<A>)
    ensures
        append_unique(a, b).len() <= a.len() + b.len(),
    decreases b.len(),
{
    if b.len() > 0 {
        lemma_append_unique_len_le(a, b.drop_last());
    }
}

/// A shared element makes the ordered union strictly shorter than the
/// summed lengths.
pub proof fn lemma_append_unique_len_lt<A>(a: Seq<A>, b: Seq<A>, x: A)
    requires
        a.contains(x),
        b.contains(x),
    ensures
        append_unique(a, b).len() < a.len() + b.len(),
    decreases b.len(),
{
    let b0 = b.drop_last();
    if b.last() == x {
        lemma_append_unique_contains(a, b0);
        assert(append_unique(a, b0).contains(x));
        assert(append_unique(a, b) == append_unique(a, b0));
        lemma_append_unique_len_le(a, b0);
    } else {
        let i = choose|i: int| 0 <= i < b.len() && b[i] == x;
        assert(b0[i] == x);
        assert(b0.contains(x));
        lemma_append_unique_len_lt(a, b0, x);
    }
}

/// An insertion-ordered set of symbols.
///
/// The distinct symbols in first-insertion order, so that membership,
/// union and iteration order are all plain functions of the view.
#[derive(Debug, PartialEq, Eq)]
pub struct EgglogSymbols {
    syms: Vec<String>,
}

impl View for EgglogSymbols {
    type V = Seq<Seq<char>>;

    closed spec fn view(&self) -> Seq<Seq<char>> {
        self.syms.deep_view()
    }
}

impl EgglogSymbols {
    /// The symbols hold no duplicate.
    pub open spec fn wf(&self) -> bool {
        self@.no_duplicates()
    }

    /// The empty symbol set.
    pub fn new() -> (r: Self)
        ensures
            r@ == Seq::<Seq<char>>::empty(),
            r.wf(),
    {
        let r = EgglogSymbols { syms: Vec::new() };
        proof {
            assert(r@ =~= Seq::<Seq<char>>::empty());
        }
        r
    }

    /// How many distinct symbols are present.
    pub fn len(&self) -> (r: usize)
        ensures
            r == self@.len(),
    {
        self.syms.len()
    }

    /// Whether `s` is present.
    pub fn contains(&self, s: &String) -> (r: bool)
        ensures
            r == self@.contains(s@),
    {
        let mut i: usize = 0;
        while i < self.syms.len()
            invariant
                0 <= i <= self.syms.len(),
                forall|k: int| 0 <= k < i ==> self@[k] != s@,
            decreases self.syms.len() - i,
        {
            if self.syms[i] == *s {
                proof {
                    assert(self@[i as int] == s@);
                }
                return true;
            }
            i += 1;
        }
        false
    }

    /// Add `s` unless it is already present.
    pub fn insert(&mut self, s: String)
        ensures
            final(self)@ == push_unique(old(self)@, s@),
            old(self).wf() ==> final(self).wf(),
    {
        let ghost prev = self@;
        if !self.contains(&s) {
            self.syms.push(s);
            proof {
                assert(self@ =~= prev.push(s@));
                if prev.no_duplicates() {
                    assert forall|i: int, j: int| 0 <= i < j < self@.len() implies self@[i]
                        != self@[j] by {
                        if j == self@.len() - 1 {
                            assert(prev.contains(prev[i]));
                        }
                    }
                }
            }
        }
    }

    /// Add every symbol of `syms`, in order, skipping those present.
    pub fn insert_all(&mut self, syms: &Vec<String>)
        ensures
            final(self)@ == append_unique(old(self)@, syms.deep_view()),
            old(self).wf() ==> final(self).wf(),
    {
        let ghost base = self@;
        let mut i: usize = 0;
        while i < syms.len()
            invariant
                0 <= i <= syms.len(),
                self@ == append_unique(base, syms.deep_view().take(i as int)),
                base.no_duplicates() ==> self@.no_duplicates(),
            decreases syms.len() - i,
        {
            let ghost mid = self@;
            self.insert(syms[i].clone());
            proof {
                assert(syms@[i as int]@ == syms.deep_view()[i as int]);
                assert(syms.deep_view().take(i + 1 as int).drop_last() =~= syms.deep_view().take(
                    i as int,
                ));
                assert(syms.deep_view().take(i + 1 as int).last() == syms.deep_view()[i as int]);
                assert(self@ == push_unique(mid, syms.deep_view()[i as int]));
                assert(self@ == append_unique(base, syms.deep_view().take(i + 1 as int)));
            }
            i += 1;
        }
        proof {
            assert(syms.deep_view().take(syms.len() as int) =~= syms.deep_view());
        }
    }

    /// Add every symbol of `other`, in order, skipping those present.
    pub fn union_with(&mut self, other: &EgglogSymbols)
        ensures
            final(self)@ == append_unique(old(self)@, other@),
            old(self).wf() ==> final(self).wf(),
    {
        let ghost base = self@;
        let mut i: usize = 0;
        while i < other.syms.len()
            invariant
                0 <= i <= other.syms.len(),
                self@ == append_unique(base, other@.take(i as int)),
                base.no_duplicates() ==> self@.no_duplicates(),
            decreases other.syms.len() - i,
        {
            let ghost mid = self@;
            self.insert(other.syms[i].clone());
            proof {
                assert(other.syms[i as int]@ == other@[i as int]);
                assert(other@.take(i + 1 as int).drop_last() =~= other@.take(i as int));
                assert(other@.take(i + 1 as int).last() == other@[i as int]);
                assert(self@ == push_unique(mid, other@[i as int]));
                assert(self@ == append_unique(base, other@.take(i + 1 as int)));
            }
            i += 1;
        }
        proof {
            assert(other@.take(other.syms.len() as int) =~= other@);
        }
    }

    /// The ordered union of two symbol sets, as a fresh value.
    pub fn union(&self, other: &EgglogSymbols) -> (r: Self)
        ensures
            r@ == append_unique(self@, other@),
            self.wf() ==> r.wf(),
    {
        let mut r = self.clone();
        r.union_with(other);
        r
    }

    /// The symbols as a vector, in first-insertion order.
    pub fn as_vec(&self) -> (r: &Vec<String>)
        ensures
            r.deep_view() == self@,
    {
        &self.syms
    }
}

impl Clone for EgglogSymbols {
    /// The clone carries the same symbols.
    fn clone(&self) -> (r: Self)
        ensures
            r@ == self@,
    {
        let syms = self.syms.clone();
        proof {
            assert(syms.deep_view() =~= self.syms.deep_view());
        }
        EgglogSymbols { syms }
    }
}

impl Default for EgglogSymbols {
    /// The default symbol set is empty.
    fn default() -> (r: Self)
        ensures
            r@ == Seq::<Seq<char>>::empty(),
            r.wf(),
    {
        EgglogSymbols::new()
    }
}

} // verus!
