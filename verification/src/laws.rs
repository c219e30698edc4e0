//! Algebraic laws of the merge operations.
//!
//! `combine` and `add` both ensure the same result shape,
//! `combined_view`, so each law below, stated over that spec, holds of
//! both operations.  Laws that mention a program's symbol index assume
//! the index is exactly what its sections derive (`exact`), the
//! invariant every program built by the staged builders satisfies and
//! every merge preserves.

use vstd::prelude::*;

use crate::command::{fact_symbol_view, primary_sort_symbol, CommandView};
use crate::program::{
    admitted_facts, admitted_sorts, combined_view, empty_view, fact_index_extend,
    lemma_fact_index_extend_concat, lemma_fact_index_extend_contains,
    lemma_fact_index_extend_no_duplicates, lemma_fact_index_extend_prefix, lemma_filter_all,
    lemma_sort_index_contains, lemma_sort_index_extend_concat, lemma_sort_index_extend_contains,
    lemma_sort_index_extend_no_duplicates, lemma_sort_index_extend_prefix, sort_index_extend,
    EgglogProgram,
};
use crate::symbols::{
    append_unique, lemma_append_unique_assoc, lemma_append_unique_contains,
    lemma_append_unique_empty_left, lemma_append_unique_no_duplicates, lemma_append_unique_prefix,
};

verus! {

/// Concatenating in either order gives the same multiset.
proof fn lemma_concat_multiset_comm<A>(x: Seq<A>, y: Seq<A>)
    ensures
        (x + y).to_multiset() == (y + x).to_multiset(),
{
    broadcast use vstd::multiset::group_multiset_axioms;

    vstd::seq_lib::lemma_multiset_commutative(x, y);
    vstd::seq_lib::lemma_multiset_commutative(y, x);
    assert(x.to_multiset().add(y.to_multiset()) =~= y.to_multiset().add(x.to_multiset()));
}

/// Two sequences without duplicates that hold the same elements are equal
/// as multisets.
proof fn lemma_unique_same_elements_multiset<A>(x: Seq<A>, y: Seq<A>)
    requires
        x.no_duplicates(),
        y.no_duplicates(),
        forall|e: A| x.contains(e) <==> y.contains(e),
    ensures
        x.to_multiset() == y.to_multiset(),
{
    broadcast use vstd::seq_lib::group_to_multiset_ensures;

    x.lemma_multiset_has_no_duplicates();
    y.lemma_multiset_has_no_duplicates();
    assert forall|e: A| x.to_multiset().count(e) == y.to_multiset().count(e) by {
        if x.contains(e) {
            assert(x.to_multiset().count(e) > 0);
            assert(y.to_multiset().count(e) > 0);
            assert(x.to_multiset().count(e) == 1);
            assert(y.to_multiset().count(e) == 1);
        } else {
            assert(!y.contains(e));
            assert(x.to_multiset().count(e) == 0);
            assert(y.to_multiset().count(e) == 0);
        }
    }
    assert(x.to_multiset() =~= y.to_multiset());
}

/// An exact program's indices cover its sections: every declaration's
/// primary symbol is in its section's index.
proof fn lemma_exact_covers(p: EgglogProgram)
    requires
        p.wf(),
        p.exact(),
    ensures
        p.indexed(),
{
    lemma_sort_index_contains(p@.sorts);
    crate::program::lemma_fact_index_contains(p@.facts);
}

/// With disjoint indices, nothing of the right operand is filtered out.
proof fn lemma_disjoint_admits_all(a: EgglogProgram, b: EgglogProgram)
    requires
        a.wf(),
        b.wf(),
        b.exact(),
        forall|s: Seq<char>| !(a@.sort_syms.contains(s) && b@.sort_syms.contains(s)),
        forall|s: Seq<char>| !(a@.fact_syms.contains(s) && b@.fact_syms.contains(s)),
    ensures
        admitted_sorts(b@.sorts, a@.sort_syms) == b@.sorts,
        admitted_facts(b@.facts, a@.fact_syms) == b@.facts,
{
    lemma_exact_covers(b);
    assert forall|i: int|
        0 <= i < b@.sorts.len() implies !a@.sort_syms.contains(
        primary_sort_symbol(#[trigger] b@.sorts[i]),
    ) by {
        assert(b@.sort_syms.contains(primary_sort_symbol(b@.sorts[i])));
    }
    assert forall|i: int|
        0 <= i < b@.facts.len() implies !a@.fact_syms.contains(
        fact_symbol_view(#[trigger] b@.facts[i]),
    ) by {
        assert(b@.fact_syms.contains(fact_symbol_view(b@.facts[i])));
    }
    lemma_filter_all(b@.sorts, |c: CommandView| !a@.sort_syms.contains(primary_sort_symbol(c)));
    lemma_filter_all(b@.facts, |c: CommandView| !a@.fact_syms.contains(fact_symbol_view(c)));
}

/// Identity laws: merging any well-formed, exactly indexed program with
/// the empty program, on either side, returns the program unchanged.
/// Both `combine` and `add` ensure `combined_view`, so both satisfy
/// these laws.
pub proof fn lemma_merge_identity(p: EgglogProgram)
    requires
        p.wf(),
        p.exact(),
    ensures
        combined_view(p@, empty_view()) == p@,
        combined_view(empty_view(), p@) == p@,
{
    broadcast use vstd::seq_lib::group_filter_ensures;

    // Right identity: nothing to filter, nothing to append, nothing new
    // to index.
    let es = Seq::<CommandView>::empty();
    assert(admitted_sorts(es, p@.sort_syms).len() <= 0);
    assert(admitted_facts(es, p@.fact_syms).len() <= 0);
    assert(admitted_sorts(es, p@.sort_syms) =~= es);
    assert(admitted_facts(es, p@.fact_syms) =~= es);
    assert(combined_view(p@, empty_view()).sorts =~= p@.sorts);
    assert(combined_view(p@, empty_view()).facts =~= p@.facts);
    assert(combined_view(p@, empty_view()).rules =~= p@.rules);
    assert(combined_view(p@, empty_view()).schedules =~= p@.schedules);
    assert(combined_view(p@, empty_view()) =~= p@);

    // Left identity: an empty index filters nothing out, so every
    // declaration is admitted and the derived index is rebuilt — which
    // is the operand's own index, since that index is exact.
    let esy = Seq::<Seq<char>>::empty();
    lemma_append_unique_empty_left(p@.bindings);
    lemma_filter_all(
        p@.sorts,
        |c: CommandView| !esy.contains(primary_sort_symbol(c)),
    );
    lemma_filter_all(
        p@.facts,
        |c: CommandView| !esy.contains(fact_symbol_view(c)),
    );
    assert(combined_view(empty_view(), p@).sorts =~= p@.sorts);
    assert(combined_view(empty_view(), p@).facts =~= p@.facts);
    assert(combined_view(empty_view(), p@).sort_syms == p@.sort_syms);
    assert(combined_view(empty_view(), p@).fact_syms == p@.fact_syms);
    assert(combined_view(empty_view(), p@).rules =~= p@.rules);
    assert(combined_view(empty_view(), p@).schedules =~= p@.schedules);
    assert(combined_view(empty_view(), p@) =~= p@);
}

/// Associativity over operands with pairwise-disjoint symbol sets:
/// merging three such programs gives the same program whichever merge
/// happens first.  Over operands that share symbols the merge is not
/// associative in general: which operand stands leftmost decides which
/// duplicate survives and which symbols are indexed.
pub proof fn lemma_merge_disjoint_associative(a: EgglogProgram, b: EgglogProgram, c: EgglogProgram)
    requires
        a.wf(),
        b.wf(),
        c.wf(),
        a.exact(),
        b.exact(),
        c.exact(),
        forall|s: Seq<char>| !(a@.sort_syms.contains(s) && b@.sort_syms.contains(s)),
        forall|s: Seq<char>| !(a@.sort_syms.contains(s) && c@.sort_syms.contains(s)),
        forall|s: Seq<char>| !(b@.sort_syms.contains(s) && c@.sort_syms.contains(s)),
        forall|s: Seq<char>| !(a@.fact_syms.contains(s) && b@.fact_syms.contains(s)),
        forall|s: Seq<char>| !(a@.fact_syms.contains(s) && c@.fact_syms.contains(s)),
        forall|s: Seq<char>| !(b@.fact_syms.contains(s) && c@.fact_syms.contains(s)),
    ensures
        combined_view(combined_view(a@, b@), c@) == combined_view(a@, combined_view(b@, c@)),
{
    broadcast use vstd::seq_lib::group_filter_ensures;

    lemma_exact_covers(a);
    lemma_exact_covers(b);
    lemma_exact_covers(c);
    lemma_disjoint_admits_all(a, b);
    lemma_disjoint_admits_all(b, c);
    let ab = combined_view(a@, b@);
    let bc = combined_view(b@, c@);

    // The left-first merge filters `c` against the index of `a` then
    // `b`, which holds nothing of `c`'s symbols.
    lemma_sort_index_extend_contains(a@.sort_syms, b@.sorts);
    lemma_sort_index_extend_contains(Seq::empty(), b@.sorts);
    assert forall|i: int|
        0 <= i < c@.sorts.len() implies !ab.sort_syms.contains(
        primary_sort_symbol(#[trigger] c@.sorts[i]),
    ) by {
        let s = primary_sort_symbol(c@.sorts[i]);
        assert(c@.sort_syms.contains(s));
        if ab.sort_syms.contains(s) {
            if a@.sort_syms.contains(s) {
                assert(false);
            } else {
                assert(crate::program::sort_index_view(b@.sorts).contains(s));
                assert(b@.sort_syms.contains(s));
                assert(false);
            }
        }
    }
    lemma_filter_all(
        c@.sorts,
        |c: CommandView| !ab.sort_syms.contains(primary_sort_symbol(c)),
    );
    lemma_fact_index_extend_contains(a@.fact_syms, b@.facts);
    lemma_fact_index_extend_contains(Seq::empty(), b@.facts);
    assert forall|i: int|
        0 <= i < c@.facts.len() implies !ab.fact_syms.contains(
        fact_symbol_view(#[trigger] c@.facts[i]),
    ) by {
        let s = fact_symbol_view(c@.facts[i]);
        assert(c@.fact_syms.contains(s));
        if ab.fact_syms.contains(s) {
            if a@.fact_syms.contains(s) {
                assert(false);
            } else {
                assert(crate::program::fact_index_view(b@.facts).contains(s));
                assert(b@.fact_syms.contains(s));
                assert(false);
            }
        }
    }
    lemma_filter_all(
        c@.facts,
        |c: CommandView| !ab.fact_syms.contains(fact_symbol_view(c)),
    );

    // The right-first merge filters `b`'s and `c`'s declarations against
    // `a`'s index, which holds nothing of theirs either.
    assert forall|i: int|
        0 <= i < bc.sorts.len() implies !a@.sort_syms.contains(
        primary_sort_symbol(#[trigger] bc.sorts[i]),
    ) by {
        if i < b@.sorts.len() {
            assert(bc.sorts[i] == b@.sorts[i]);
            assert(b@.sort_syms.contains(primary_sort_symbol(b@.sorts[i])));
        } else {
            assert(bc.sorts[i] == c@.sorts[i - b@.sorts.len()]);
            assert(c@.sort_syms.contains(primary_sort_symbol(c@.sorts[i - b@.sorts.len()])));
        }
    }
    lemma_filter_all(
        bc.sorts,
        |c: CommandView| !a@.sort_syms.contains(primary_sort_symbol(c)),
    );
    assert forall|i: int|
        0 <= i < bc.facts.len() implies !a@.fact_syms.contains(
        fact_symbol_view(#[trigger] bc.facts[i]),
    ) by {
        if i < b@.facts.len() {
            assert(bc.facts[i] == b@.facts[i]);
            assert(b@.fact_syms.contains(fact_symbol_view(b@.facts[i])));
        } else {
            assert(bc.facts[i] == c@.facts[i - b@.facts.len()]);
            assert(c@.fact_syms.contains(fact_symbol_view(c@.facts[i - b@.facts.len()])));
        }
    }
    lemma_filter_all(
        bc.facts,
        |c: CommandView| !a@.fact_syms.contains(fact_symbol_view(c)),
    );

    // Sections concatenate associatively; the indices extend by the same
    // declarations either way.
    assert(combined_view(ab, c@).sorts =~= combined_view(a@, bc).sorts);
    assert(combined_view(ab, c@).facts =~= combined_view(a@, bc).facts);
    assert(b@.sorts + c@.sorts =~= bc.sorts);
    lemma_sort_index_extend_concat(a@.sort_syms, b@.sorts, c@.sorts);
    assert(combined_view(a@, bc).sort_syms == sort_index_extend(
        sort_index_extend(a@.sort_syms, b@.sorts),
        c@.sorts,
    ));
    assert(combined_view(ab, c@).sort_syms == combined_view(a@, bc).sort_syms);
    assert(b@.facts + c@.facts =~= bc.facts);
    lemma_fact_index_extend_concat(a@.fact_syms, b@.facts, c@.facts);
    assert(combined_view(a@, bc).fact_syms == fact_index_extend(
        fact_index_extend(a@.fact_syms, b@.facts),
        c@.facts,
    ));
    assert(combined_view(ab, c@).fact_syms == combined_view(a@, bc).fact_syms);
    lemma_append_unique_assoc(a@.bindings, b@.bindings, c@.bindings);
    assert(combined_view(ab, c@).rules =~= combined_view(a@, bc).rules);
    assert(combined_view(ab, c@).schedules =~= combined_view(a@, bc).schedules);
    assert(combined_view(ab, c@) =~= combined_view(a@, bc));
}

/// Commutativity over disjoint operands: when the two programs declare no
/// common symbol, merging in either order gives the same declarations and
/// symbols, up to the order in which the two operands' parts are
/// concatenated.
pub proof fn lemma_merge_disjoint_commutative(a: EgglogProgram, b: EgglogProgram)
    requires
        a.wf(),
        b.wf(),
        a.exact(),
        b.exact(),
        forall|s: Seq<char>| !(a@.sort_syms.contains(s) && b@.sort_syms.contains(s)),
        forall|s: Seq<char>| !(a@.fact_syms.contains(s) && b@.fact_syms.contains(s)),
    ensures
        combined_view(a@, b@).sorts.to_multiset() == combined_view(b@, a@).sorts.to_multiset(),
        combined_view(a@, b@).facts.to_multiset() == combined_view(b@, a@).facts.to_multiset(),
        combined_view(a@, b@).rules.to_multiset() == combined_view(b@, a@).rules.to_multiset(),
        combined_view(a@, b@).schedules.to_multiset() == combined_view(
            b@,
            a@,
        ).schedules.to_multiset(),
        combined_view(a@, b@).sort_syms.to_multiset() == combined_view(
            b@,
            a@,
        ).sort_syms.to_multiset(),
        combined_view(a@, b@).fact_syms.to_multiset() == combined_view(
            b@,
            a@,
        ).fact_syms.to_multiset(),
        combined_view(a@, b@).bindings.to_multiset() == combined_view(
            b@,
            a@,
        ).bindings.to_multiset(),
{
    lemma_disjoint_admits_all(a, b);
    lemma_disjoint_admits_all(b, a);
    lemma_concat_multiset_comm(a@.sorts, b@.sorts);
    lemma_concat_multiset_comm(a@.facts, b@.facts);
    lemma_concat_multiset_comm(a@.rules, b@.rules);
    lemma_concat_multiset_comm(a@.schedules, b@.schedules);

    // Either merged sort index holds each operand's symbols, once.
    let e1 = sort_index_extend(a@.sort_syms, b@.sorts);
    let e2 = sort_index_extend(b@.sort_syms, a@.sorts);
    lemma_sort_index_extend_contains(a@.sort_syms, b@.sorts);
    lemma_sort_index_extend_contains(b@.sort_syms, a@.sorts);
    lemma_sort_index_extend_contains(Seq::empty(), a@.sorts);
    lemma_sort_index_extend_contains(Seq::empty(), b@.sorts);
    lemma_sort_index_extend_no_duplicates(a@.sort_syms, b@.sorts);
    lemma_sort_index_extend_no_duplicates(b@.sort_syms, a@.sorts);
    assert forall|s: Seq<char>| e1.contains(s) <==> e2.contains(s) by {
        assert(crate::program::sort_index_view(a@.sorts).contains(s) <==> a@.sort_syms.contains(
            s,
        ));
        assert(crate::program::sort_index_view(b@.sorts).contains(s) <==> b@.sort_syms.contains(
            s,
        ));
    }
    lemma_unique_same_elements_multiset(e1, e2);

    // And each merged fact index holds each operand's bound symbols, once.
    let f1 = fact_index_extend(a@.fact_syms, b@.facts);
    let f2 = fact_index_extend(b@.fact_syms, a@.facts);
    lemma_fact_index_extend_contains(a@.fact_syms, b@.facts);
    lemma_fact_index_extend_contains(b@.fact_syms, a@.facts);
    lemma_fact_index_extend_contains(Seq::empty(), a@.facts);
    lemma_fact_index_extend_contains(Seq::empty(), b@.facts);
    lemma_fact_index_extend_no_duplicates(a@.fact_syms, b@.facts);
    lemma_fact_index_extend_no_duplicates(b@.fact_syms, a@.facts);
    assert forall|s: Seq<char>| f1.contains(s) <==> f2.contains(s) by {
        assert(crate::program::fact_index_view(a@.facts).contains(s) <==> a@.fact_syms.contains(
            s,
        ));
        assert(crate::program::fact_index_view(b@.facts).contains(s) <==> b@.fact_syms.contains(
            s,
        ));
    }
    lemma_unique_same_elements_multiset(f1, f2);

    // The unioned bound symbols hold the same elements either way, once.
    lemma_append_unique_contains(a@.bindings, b@.bindings);
    lemma_append_unique_contains(b@.bindings, a@.bindings);
    lemma_append_unique_no_duplicates(a@.bindings, b@.bindings);
    lemma_append_unique_no_duplicates(b@.bindings, a@.bindings);
    lemma_unique_same_elements_multiset(
        append_unique(a@.bindings, b@.bindings),
        append_unique(b@.bindings, a@.bindings),
    );
}

/// Deduplication: when some sort declaration of the right operand carries
/// a primary symbol the left operand's index already holds, the merge
/// appends no declaration with that symbol; the dropped declaration
/// contributes nothing to the merged index — every merged symbol comes
/// from the left operand or from an admitted declaration; and the merged
/// index is strictly smaller than the two indices summed.
pub proof fn lemma_merge_dedup(a: EgglogProgram, b: EgglogProgram, i: int)
    requires
        a.wf(),
        b.wf(),
        b.exact(),
        0 <= i < b@.sorts.len(),
        a@.sort_syms.contains(primary_sort_symbol(b@.sorts[i])),
    ensures
        forall|j: int|
            a@.sorts.len() <= j < combined_view(a@, b@).sorts.len()
                ==> primary_sort_symbol(#[trigger] combined_view(a@, b@).sorts[j])
                != primary_sort_symbol(b@.sorts[i]),
        forall|s: Seq<char>|
            #[trigger] combined_view(a@, b@).sort_syms.contains(s) ==> a@.sort_syms.contains(s)
                || (exists|k: int|
                0 <= k < admitted_sorts(b@.sorts, a@.sort_syms).len() && (
                #[trigger] crate::command::sort_symbols_view(
                    admitted_sorts(b@.sorts, a@.sort_syms)[k],
                )).contains(s)),
        combined_view(a@, b@).sort_syms.len() < a@.sort_syms.len() + b@.sort_syms.len(),
{
    broadcast use vstd::seq_lib::group_filter_ensures;
    broadcast use vstd::seq_lib::seq_to_set_is_finite;
    broadcast use vstd::set::group_set_axioms;

    let dup = primary_sort_symbol(b@.sorts[i]);
    let kept = admitted_sorts(b@.sorts, a@.sort_syms);
    let pa = |c: CommandView| !a@.sort_syms.contains(primary_sort_symbol(c));

    // No admitted declaration carries the duplicate's primary symbol.
    assert forall|j: int|
        a@.sorts.len() <= j < combined_view(a@, b@).sorts.len() implies primary_sort_symbol(
        #[trigger] combined_view(a@, b@).sorts[j],
    ) != dup by {
        let k = j - a@.sorts.len();
        b@.sorts.lemma_filter_pred(pa, k);
        assert(combined_view(a@, b@).sorts[j] == kept[k]);
    }

    // Every merged symbol comes from the left operand or an admitted
    // declaration.
    lemma_sort_index_extend_contains(a@.sort_syms, kept);

    // Strict count: the merged index keeps the left operand as a prefix
    // and appends only distinct symbols of the right operand other than
    // the duplicate, of which the right index holds at most all but one.
    let e = sort_index_extend(a@.sort_syms, kept);
    let alen = a@.sort_syms.len() as int;
    lemma_sort_index_extend_prefix(a@.sort_syms, kept);
    lemma_sort_index_extend_no_duplicates(a@.sort_syms, kept);
    lemma_sort_index_extend_contains(Seq::empty(), b@.sorts);
    let added = e.skip(alen);
    assert(e.len() == alen + added.len());
    assert forall|p: int, q: int| 0 <= p < q < added.len() implies added[p] != added[q] by {
        assert(added[p] == e[alen + p]);
        assert(added[q] == e[alen + q]);
    }
    assert(added.no_duplicates());
    lemma_sort_index_contains(b@.sorts);
    assert(b@.sort_syms.contains(dup)) by {
        assert(crate::program::sort_index_view(b@.sorts).contains(dup));
    }
    assert(b@.sort_syms.to_set().contains(dup));
    assert forall|k: int|
        0 <= k < added.len() implies b@.sort_syms.to_set().remove(dup).contains(
        #[trigger] added[k],
    ) by {
        let s = added[k];
        assert(e[alen + k] == s);
        assert(e.contains(s));
        if a@.sort_syms.contains(s) {
            let p = choose|p: int| 0 <= p < alen && a@.sort_syms[p] == s;
            assert(e.take(alen)[p] == a@.sort_syms[p]);
            assert(e[p] == s);
            assert(false);
        }
        let w = choose|w: int|
            0 <= w < kept.len() && (#[trigger] crate::command::sort_symbols_view(
                kept[w],
            )).contains(s);
        assert(kept.contains(kept[w]));
        b@.sorts.lemma_filter_contains_rev(pa, kept[w]);
        let m = choose|m: int| 0 <= m < b@.sorts.len() && b@.sorts[m] == kept[w];
        assert(crate::command::sort_symbols_view(b@.sorts[m]).contains(s));
        assert(crate::program::sort_index_view(b@.sorts).contains(s));
        assert(b@.sort_syms.contains(s));
        assert(s != dup);
        assert(b@.sort_syms.to_set().contains(s));
    }
    assert(added.to_set().subset_of(b@.sort_syms.to_set().remove(dup)));
    added.unique_seq_to_set();
    b@.sort_syms.unique_seq_to_set();
    assert(b@.sort_syms.to_set().remove(dup).len() == b@.sort_syms.len() - 1);
    vstd::set_lib::lemma_len_subset(
        added.to_set(),
        b@.sort_syms.to_set().remove(dup),
    );
    assert(added.len() <= b@.sort_syms.len() - 1);
}

/// Full domination: when every sort declaration of the right operand
/// carries an already-taken primary symbol and the right operand has no
/// facts, the merge changes no section and no index — but the right
/// operand's rule and schedule fragments, empty or not, are still
/// appended as fragments.
pub proof fn lemma_merge_dominated(a: EgglogProgram, b: EgglogProgram)
    requires
        a.wf(),
        b.wf(),
        forall|i: int|
            0 <= i < b@.sorts.len() ==> a@.sort_syms.contains(
                primary_sort_symbol(#[trigger] b@.sorts[i]),
            ),
        b@.facts.len() == 0,
    ensures
        combined_view(a@, b@).sorts == a@.sorts,
        combined_view(a@, b@).sort_syms == a@.sort_syms,
        combined_view(a@, b@).facts == a@.facts,
        combined_view(a@, b@).fact_syms == a@.fact_syms,
        combined_view(a@, b@).rules == a@.rules + b@.rules,
        combined_view(a@, b@).schedules == a@.schedules + b@.schedules,
{
    broadcast use vstd::seq_lib::group_filter_ensures;

    let kept = admitted_sorts(b@.sorts, a@.sort_syms);
    let pa = |c: CommandView| !a@.sort_syms.contains(primary_sort_symbol(c));
    if kept.len() > 0 {
        b@.sorts.lemma_filter_pred(pa, 0);
        assert(kept.contains(kept[0]));
        b@.sorts.lemma_filter_contains_rev(pa, kept[0]);
        let w = choose|w: int| 0 <= w < b@.sorts.len() && b@.sorts[w] == kept[0];
        assert(a@.sort_syms.contains(primary_sort_symbol(b@.sorts[w])));
        assert(false);
    }
    assert(kept =~= Seq::<CommandView>::empty());
    assert(combined_view(a@, b@).sorts =~= a@.sorts);
    assert(admitted_facts(b@.facts, a@.fact_syms).len() <= 0);
    assert(admitted_facts(b@.facts, a@.fact_syms) =~= Seq::<CommandView>::empty());
    assert(combined_view(a@, b@).facts =~= a@.facts);
}

/// Monotonicity: a merge never removes anything the left operand holds —
/// its declarations, fragments and symbols stay, unchanged and in place,
/// as a prefix of the result.
pub proof fn lemma_merge_monotone(a: EgglogProgram, b: EgglogProgram)
    ensures
        combined_view(a@, b@).sorts.len() >= a@.sorts.len(),
        combined_view(a@, b@).facts.len() >= a@.facts.len(),
        combined_view(a@, b@).sorts.take(a@.sorts.len() as int) == a@.sorts,
        combined_view(a@, b@).facts.take(a@.facts.len() as int) == a@.facts,
        combined_view(a@, b@).rules.take(a@.rules.len() as int) == a@.rules,
        combined_view(a@, b@).schedules.take(a@.schedules.len() as int) == a@.schedules,
        combined_view(a@, b@).sort_syms.take(a@.sort_syms.len() as int) == a@.sort_syms,
        combined_view(a@, b@).fact_syms.take(a@.fact_syms.len() as int) == a@.fact_syms,
        combined_view(a@, b@).bindings.take(a@.bindings.len() as int) == a@.bindings,
{
    assert(combined_view(a@, b@).sorts.take(a@.sorts.len() as int) =~= a@.sorts);
    assert(combined_view(a@, b@).facts.take(a@.facts.len() as int) =~= a@.facts);
    assert(combined_view(a@, b@).rules.take(a@.rules.len() as int) =~= a@.rules);
    assert(combined_view(a@, b@).schedules.take(a@.schedules.len() as int) =~= a@.schedules);
    lemma_sort_index_extend_prefix(a@.sort_syms, admitted_sorts(b@.sorts, a@.sort_syms));
    lemma_fact_index_extend_prefix(a@.fact_syms, admitted_facts(b@.facts, a@.fact_syms));
    lemma_append_unique_prefix(a@.bindings, b@.bindings);
    assert(combined_view(a@, b@).bindings.take(a@.bindings.len() as int) =~= a@.bindings);
}

} // verus!
