//! The assembled program and its merge algebra.
//!
//! A program is five parts: an indexed sorts section, an indexed facts
//! section, a list of rule fragments, a list of schedule fragments and a
//! set of bound symbols.  Programs are merged by `combine` (borrowing) and
//! `add` (consuming), which share one spec, `combined_view`: keep the left
//! operand whole, append the right operand's sort and fact declarations
//! whose primary symbol is new, concatenate fragments, union the bound
//! symbols, and extend each index with the admitted declarations' symbols
//! only — so an index always stays exactly what its section derives.
//! `flatten` lays a program out as the one command sequence the engine
//! consumes.

use vstd::pervasive::unreached;
use vstd::prelude::*;

use crate::command::{
    fact_symbol_view, get_fact_symbol, get_sort_symbol, is_action_shaped, is_let_shaped,
    is_sort_shaped, primary_sort_symbol, sort_symbols_view, Command, CommandView,
};
use crate::facts::EgglogFacts;
use crate::rules::EgglogRules;
use crate::schedule::EgglogSchedules;
use crate::sorts::EgglogSorts;
use crate::symbols::{append_unique, push_unique, EgglogSymbols};

verus! {

/// A symbol index paired with the sorts section it indexes.
pub type EgglogProgramSorts = (EgglogSymbols, EgglogSorts);

/// A symbol index paired with the facts section it indexes.
pub type EgglogProgramFacts = (EgglogSymbols, EgglogFacts);

/// The rule fragments of a program, in arrival order.
pub type EgglogRuleList = Vec<EgglogRules>;

/// The schedule fragments of a program, in arrival order.
pub type EgglogScheduleList = Vec<EgglogSchedules>;

/// A flattened sequence of declarations, ready for the engine.
pub type EgglogCommandList = Vec<Command>;

/// Spec-level shape of a program.
#[verifier::ext_equal]
pub struct ProgramView {
    pub sort_syms: Seq<Seq<char>>,
    pub sorts: Seq<CommandView>,
    pub fact_syms: Seq<Seq<char>>,
    pub facts: Seq<CommandView>,
    pub rules: Seq<Seq<CommandView>>,
    pub schedules: Seq<Seq<CommandView>>,
    pub bindings: Seq<Seq<char>>,
}

/// `idx`, extended in order with every declared symbol of every
/// declaration of `cmds`, skipping symbols already present.
pub open spec fn sort_index_extend(idx: Seq<Seq<char>>, cmds: Seq<CommandView>) -> Seq<Seq<char>>
    decreases cmds.len(),
{
    if cmds.len() == 0 {
        idx
    } else {
        append_unique(sort_index_extend(idx, cmds.drop_last()), sort_symbols_view(cmds.last()))
    }
}

/// The symbol index the sorts section derives: every declared symbol of
/// every declaration, first occurrence first.
pub open spec fn sort_index_view(cmds: Seq<CommandView>) -> Seq<Seq<char>> {
    sort_index_extend(Seq::empty(), cmds)
}

/// `idx`, extended in order with every declaration's bound symbol,
/// skipping symbols already present.
pub open spec fn fact_index_extend(idx: Seq<Seq<char>>, cmds: Seq<CommandView>) -> Seq<Seq<char>>
    decreases cmds.len(),
{
    if cmds.len() == 0 {
        idx
    } else {
        push_unique(fact_index_extend(idx, cmds.drop_last()), fact_symbol_view(cmds.last()))
    }
}

/// The symbol index the facts section derives: every bound symbol, first
/// occurrence first.
pub open spec fn fact_index_view(cmds: Seq<CommandView>) -> Seq<Seq<char>> {
    fact_index_extend(Seq::empty(), cmds)
}

/// The right operand's sort declarations admitted by a merge: those whose
/// primary symbol is not in the left operand's index.
pub open spec fn admitted_sorts(sorts: Seq<CommandView>, idx: Seq<Seq<char>>) -> Seq<CommandView> {
    sorts.filter(|c: CommandView| !idx.contains(primary_sort_symbol(c)))
}

/// The right operand's fact declarations admitted by a merge: those whose
/// bound symbol is not in the left operand's index.
pub open spec fn admitted_facts(facts: Seq<CommandView>, idx: Seq<Seq<char>>) -> Seq<CommandView> {
    facts.filter(|c: CommandView| !idx.contains(fact_symbol_view(c)))
}

/// What merging two programs produces, for both merge operations: the left
/// operand's declarations, then the right operand's non-duplicate sort and
/// fact declarations; fragments concatenated; bound symbols unioned in
/// order.  Each merged index is the left operand's index extended with the
/// symbols of the admitted declarations only: a declaration the merge
/// drops contributes nothing to the index, its variant symbols included.
pub open spec fn combined_view(a: ProgramView, b: ProgramView) -> ProgramView {
    let kept_sorts = admitted_sorts(b.sorts, a.sort_syms);
    let kept_facts = admitted_facts(b.facts, a.fact_syms);
    ProgramView {
        sort_syms: sort_index_extend(a.sort_syms, kept_sorts),
        sorts: a.sorts + kept_sorts,
        fact_syms: fact_index_extend(a.fact_syms, kept_facts),
        facts: a.facts + kept_facts,
        rules: a.rules + b.rules,
        schedules: a.schedules + b.schedules,
        bindings: append_unique(a.bindings, b.bindings),
    }
}

/// The shape of the empty program: the merge identity.
pub open spec fn empty_view() -> ProgramView {
    ProgramView {
        sort_syms: Seq::empty(),
        sorts: Seq::empty(),
        fact_syms: Seq::empty(),
        facts: Seq::empty(),
        rules: Seq::empty(),
        schedules: Seq::empty(),
        bindings: Seq::empty(),
    }
}

/// One fragment after another, in fragment order, each fragment's
/// declarations in their own order.
pub open spec fn concat_frags(frags: Seq<Seq<CommandView>>) -> Seq<CommandView>
    decreases frags.len(),
{
    if frags.len() == 0 {
        Seq::empty()
    } else {
        concat_frags(frags.drop_last()) + frags.last()
    }
}

/// The command sequence a program flattens to: sorts, then facts, then
/// rule fragments, then schedule fragments; bindings are never emitted.
pub open spec fn flattened_view(p: ProgramView) -> Seq<CommandView> {
    p.sorts + p.facts + concat_frags(p.rules) + concat_frags(p.schedules)
}

/// An assembled program.
#[derive(Debug, PartialEq, Eq)]
pub struct EgglogProgram {
    sorts: EgglogProgramSorts,
    facts: EgglogProgramFacts,
    rules: EgglogRuleList,
    bindings: EgglogSymbols,
    schedules: EgglogScheduleList,
}

impl View for EgglogProgram {
    type V = ProgramView;

    closed spec fn view(&self) -> ProgramView {
        ProgramView {
            sort_syms: self.sorts.0@,
            sorts: self.sorts.1@,
            fact_syms: self.facts.0@,
            facts: self.facts.1@,
            rules: self.rules.deep_view(),
            schedules: self.schedules.deep_view(),
            bindings: self.bindings@,
        }
    }
}

/// Sections hold only declarations of their kind, every fact is a
/// let-binding, and the symbol sets hold no duplicates.
pub open spec fn view_wf(p: ProgramView) -> bool {
    &&& forall|i: int| 0 <= i < p.sorts.len() ==> is_sort_shaped(#[trigger] p.sorts[i])
    &&& forall|i: int| 0 <= i < p.facts.len() ==> is_action_shaped(#[trigger] p.facts[i])
    &&& forall|i: int| 0 <= i < p.facts.len() ==> is_let_shaped(#[trigger] p.facts[i])
    &&& p.sort_syms.no_duplicates()
    &&& p.fact_syms.no_duplicates()
    &&& p.bindings.no_duplicates()
}

/// Every declaration's primary symbol is recorded in its section's index.
pub open spec fn view_indexed(p: ProgramView) -> bool {
    &&& forall|i: int|
        0 <= i < p.sorts.len() ==> p.sort_syms.contains(
            primary_sort_symbol(#[trigger] p.sorts[i]),
        )
    &&& forall|i: int|
        0 <= i < p.facts.len() ==> p.fact_syms.contains(
            fact_symbol_view(#[trigger] p.facts[i]),
        )
}

/// The symbol indices are exactly what the sections derive.
pub open spec fn view_exact(p: ProgramView) -> bool {
    &&& p.sort_syms == sort_index_view(p.sorts)
    &&& p.fact_syms == fact_index_view(p.facts)
}

impl EgglogProgram {
    /// Sections hold only declarations of their kind, every fact is a
    /// let-binding, and the symbol sets hold no duplicates.
    pub open spec fn wf(&self) -> bool {
        view_wf(self@)
    }

    /// Every declaration's primary symbol is recorded in its section's
    /// index.
    pub open spec fn indexed(&self) -> bool {
        view_indexed(self@)
    }

    /// The symbol indices are exactly what the sections derive.
    pub open spec fn exact(&self) -> bool {
        view_exact(self@)
    }

    /// The empty program: no declarations, no symbols.  The identity of
    /// both merge operations.
    pub fn empty() -> (r: Self)
        ensures
            r@ == empty_view(),
            r.wf(),
            r.indexed(),
            r.exact(),
    {
        let r = EgglogProgram {
            sorts: (EgglogSymbols::new(), EgglogSorts::new()),
            facts: (EgglogSymbols::new(), EgglogFacts::new()),
            rules: Vec::new(),
            bindings: EgglogSymbols::new(),
            schedules: Vec::new(),
        };
        proof {
            assert(r.rules.deep_view() =~= Seq::<Seq<CommandView>>::empty());
            assert(r.schedules.deep_view() =~= Seq::<Seq<CommandView>>::empty());
            assert(r@ =~= empty_view());
        }
        r
    }

    /// The indexed sorts section.
    pub fn sorts(&self) -> (r: &EgglogProgramSorts)
        ensures
            r.0@ == self@.sort_syms,
            r.1@ == self@.sorts,
    {
        &self.sorts
    }

    /// The indexed facts section.
    pub fn facts(&self) -> (r: &EgglogProgramFacts)
        ensures
            r.0@ == self@.fact_syms,
            r.1@ == self@.facts,
    {
        &self.facts
    }

    /// The rule fragments.
    pub fn rules(&self) -> (r: &EgglogRuleList)
        ensures
            r.deep_view() == self@.rules,
    {
        &self.rules
    }

    /// The schedule fragments.
    pub fn schedules(&self) -> (r: &EgglogScheduleList)
        ensures
            r.deep_view() == self@.schedules,
    {
        &self.schedules
    }

    /// The bound symbols.
    pub fn bindings(&self) -> (r: &EgglogSymbols)
        ensures
            r@ == self@.bindings,
    {
        &self.bindings
    }

    /// Assemble a program from its five parts.
    pub(crate) fn from_parts(
        sorts: EgglogProgramSorts,
        facts: EgglogProgramFacts,
        rules: EgglogRuleList,
        bindings: EgglogSymbols,
        schedules: EgglogScheduleList,
    ) -> (r: Self)
        ensures
            r@ == (ProgramView {
                sort_syms: sorts.0@,
                sorts: sorts.1@,
                fact_syms: facts.0@,
                facts: facts.1@,
                rules: rules.deep_view(),
                schedules: schedules.deep_view(),
                bindings: bindings@,
            }),
    {
        EgglogProgram { sorts, facts, rules, bindings, schedules }
    }
}

impl Clone for EgglogProgram {
    /// The clone carries the same declarations and symbols.
    fn clone(&self) -> (r: Self)
        ensures
            r@ == self@,
    {
        let rules = clone_rule_list(&self.rules);
        let schedules = clone_schedule_list(&self.schedules);
        EgglogProgram {
            sorts: (self.sorts.0.clone(), self.sorts.1.clone()),
            facts: (self.facts.0.clone(), self.facts.1.clone()),
            rules,
            bindings: self.bindings.clone(),
            schedules,
        }
    }
}

impl Default for EgglogProgram {
    /// The default program is empty.
    fn default() -> (r: Self)
        ensures
            r@ == empty_view(),
            r.wf(),
            r.indexed(),
            r.exact(),
    {
        EgglogProgram::empty()
    }
}

/// A merge of a program with an indexed left operand is indexed: the
/// left declarations are covered by the left index, and every admitted
/// declaration contributes its own symbols to the extended index.
proof fn lemma_combined_indexed(a: ProgramView, b: ProgramView)
    requires
        view_indexed(a),
        forall|i: int| 0 <= i < b.sorts.len() ==> is_sort_shaped(#[trigger] b.sorts[i]),
    ensures
        view_indexed(combined_view(a, b)),
{
    broadcast use vstd::seq_lib::group_filter_ensures;

    let r = combined_view(a, b);
    let kept_s = admitted_sorts(b.sorts, a.sort_syms);
    let kept_f = admitted_facts(b.facts, a.fact_syms);
    lemma_sort_index_extend_contains(a.sort_syms, kept_s);
    lemma_fact_index_extend_contains(a.fact_syms, kept_f);
    assert forall|i: int|
        0 <= i < r.sorts.len() implies r.sort_syms.contains(
        primary_sort_symbol(#[trigger] r.sorts[i]),
    ) by {
        if i < a.sorts.len() {
            assert(r.sorts[i] == a.sorts[i]);
            assert(a.sort_syms.contains(primary_sort_symbol(a.sorts[i])));
        } else {
            let k = i - a.sorts.len();
            assert(r.sorts[i] == kept_s[k]);
            assert(kept_s.contains(kept_s[k]));
            b.sorts.lemma_filter_contains_rev(
                |c: CommandView| !a.sort_syms.contains(primary_sort_symbol(c)),
                kept_s[k],
            );
            let w = choose|w: int| 0 <= w < b.sorts.len() && b.sorts[w] == kept_s[k];
            assert(is_sort_shaped(kept_s[k]));
            assert(sort_symbols_view(kept_s[k])[0] == primary_sort_symbol(kept_s[k]));
            assert(sort_symbols_view(kept_s[k]).contains(primary_sort_symbol(kept_s[k])));
        }
    }
    assert forall|i: int|
        0 <= i < r.facts.len() implies r.fact_syms.contains(
        fact_symbol_view(#[trigger] r.facts[i]),
    ) by {
        if i < a.facts.len() {
            assert(r.facts[i] == a.facts[i]);
            assert(a.fact_syms.contains(fact_symbol_view(a.facts[i])));
        } else {
            let k = i - a.facts.len();
            assert(r.facts[i] == kept_f[k]);
        }
    }
}

/// A merge preserves exact indices: when the left operand's indices are
/// exactly what its sections derive, so are the merged program's.
proof fn lemma_combined_exact(a: ProgramView, b: ProgramView)
    requires
        view_exact(a),
    ensures
        view_exact(combined_view(a, b)),
{
    let kept_s = admitted_sorts(b.sorts, a.sort_syms);
    let kept_f = admitted_facts(b.facts, a.fact_syms);
    lemma_sort_index_extend_concat(Seq::empty(), a.sorts, kept_s);
    lemma_fact_index_extend_concat(Seq::empty(), a.facts, kept_f);
}

/// A filter whose predicate holds of every element keeps the sequence
/// unchanged.
pub proof fn lemma_filter_all<A>(s: Seq<A>, pred: spec_fn(A) -> bool)
    requires
        forall|i: int| 0 <= i < s.len() ==> pred(#[trigger] s[i]),
    ensures
        s.filter(pred) == s,
    decreases s.len(),
{
    broadcast use vstd::seq_lib::group_filter_ensures;

    if s.len() == 0 {
        assert(s.filter(pred).len() <= 0);
        assert(s.filter(pred) =~= s);
    } else {
        let d = s.drop_last();
        assert forall|i: int| 0 <= i < d.len() implies pred(#[trigger] d[i]) by {
            assert(d[i] == s[i]);
        }
        lemma_filter_all(d, pred);
        assert(d.push(s.last()) =~= s);
        d.lemma_filter_push(s.last(), pred);
        assert(pred(s.last()));
        assert(s.filter(pred) =~= s);
    }
}

impl EgglogProgram {
    /// Merge `other` into a fresh program, leaving both operands intact:
    /// keep every declaration of `self`; append each sort or fact
    /// declaration of `other` whose primary symbol is not yet in `self`'s
    /// index, extending the index with the admitted declarations' symbols;
    /// concatenate rule and schedule fragments; union the bound symbols.
    #[verifier::loop_isolation(false)]
    pub fn combine(&self, other: &Self) -> (r: Self)
        requires
            self.wf(),
            other.wf(),
        ensures
            r@ == combined_view(self@, other@),
            r.wf(),
            self.indexed() ==> r.indexed(),
            self.exact() ==> r.exact(),
    {
        broadcast use vstd::seq_lib::group_filter_ensures;

        let ghost spred = |c: CommandView| !self@.sort_syms.contains(primary_sort_symbol(c));
        let ghost fpred = |c: CommandView| !self@.fact_syms.contains(fact_symbol_view(c));

        // Sort declarations of `other` whose primary symbol is new, with
        // the merged index built from their symbols as they are admitted.
        let mut kept_sorts: Vec<Command> = Vec::new();
        let mut sort_idx = self.sorts.0.clone();
        let osorts = other.sorts.1.commands();
        let mut i: usize = 0;
        while i < osorts.len()
            invariant
                0 <= i <= osorts.len(),
                kept_sorts.deep_view() == other@.sorts.take(i as int).filter(spred),
                sort_idx@ == sort_index_extend(self@.sort_syms, kept_sorts.deep_view()),
                sort_idx@.no_duplicates(),
            decreases osorts.len() - i,
        {
            let ghost taken = other@.sorts.take(i as int);
            let ghost xv = other@.sorts[i as int];
            proof {
                assert(osorts@[i as int]@ == xv);
                assert(taken.push(xv) =~= other@.sorts.take(i + 1 as int));
                taken.lemma_filter_push(xv, spred);
            }
            let syms = match get_sort_symbol(&osorts[i]) {
                Ok(s) => s,
                Err(_) => unreached(),
            };
            if !self.sorts.0.contains(&syms[0]) {
                proof {
                    assert(syms@[0int]@ == sort_symbols_view(xv)[0]);
                    assert(spred(xv));
                }
                let ghost prev = kept_sorts.deep_view();
                kept_sorts.push(osorts[i].clone());
                sort_idx.insert_all(&syms);
                proof {
                    assert(kept_sorts.deep_view() =~= prev.push(xv));
                    assert(kept_sorts.deep_view() == other@.sorts.take(i + 1 as int).filter(
                        spred,
                    ));
                    assert(kept_sorts.deep_view().drop_last() =~= prev);
                    assert(kept_sorts.deep_view().last() == xv);
                    assert(sort_index_extend(self@.sort_syms, kept_sorts.deep_view())
                        == append_unique(
                        sort_index_extend(self@.sort_syms, prev),
                        sort_symbols_view(xv),
                    ));
                    assert(syms.deep_view() == sort_symbols_view(xv));
                    assert(sort_idx@ == sort_index_extend(
                        self@.sort_syms,
                        kept_sorts.deep_view(),
                    ));
                }
            } else {
                proof {
                    assert(syms@[0int]@ == sort_symbols_view(xv)[0]);
                    assert(!spred(xv));
                    assert(kept_sorts.deep_view() == other@.sorts.take(i + 1 as int).filter(
                        spred,
                    ));
                }
            }
            i += 1;
        }
        proof {
            assert(other@.sorts.take(osorts.len() as int) =~= other@.sorts);
            assert(kept_sorts.deep_view() == admitted_sorts(other@.sorts, self@.sort_syms));
        }

        // Fact declarations of `other` whose bound symbol is new, with
        // the merged index built from their symbols as they are admitted.
        let mut kept_facts: Vec<Command> = Vec::new();
        let mut fact_idx = self.facts.0.clone();
        let ofacts = other.facts.1.commands();
        let mut j: usize = 0;
        while j < ofacts.len()
            invariant
                0 <= j <= ofacts.len(),
                kept_facts.deep_view() == other@.facts.take(j as int).filter(fpred),
                fact_idx@ == fact_index_extend(self@.fact_syms, kept_facts.deep_view()),
                fact_idx@.no_duplicates(),
            decreases ofacts.len() - j,
        {
            let ghost taken = other@.facts.take(j as int);
            let ghost xv = other@.facts[j as int];
            proof {
                assert(ofacts@[j as int]@ == xv);
                assert(taken.push(xv) =~= other@.facts.take(j + 1 as int));
                taken.lemma_filter_push(xv, fpred);
            }
            let sym = match get_fact_symbol(&ofacts[j]) {
                Ok(s) => s,
                Err(_) => unreached(),
            };
            if !self.facts.0.contains(&sym) {
                proof {
                    assert(fpred(xv));
                }
                let ghost prev = kept_facts.deep_view();
                kept_facts.push(ofacts[j].clone());
                fact_idx.insert(sym);
                proof {
                    assert(kept_facts.deep_view() =~= prev.push(xv));
                    assert(kept_facts.deep_view() == other@.facts.take(j + 1 as int).filter(
                        fpred,
                    ));
                    assert(kept_facts.deep_view().drop_last() =~= prev);
                    assert(kept_facts.deep_view().last() == xv);
                    assert(fact_index_extend(self@.fact_syms, kept_facts.deep_view())
                        == push_unique(
                        fact_index_extend(self@.fact_syms, prev),
                        fact_symbol_view(xv),
                    ));
                    assert(fact_idx@ == fact_index_extend(
                        self@.fact_syms,
                        kept_facts.deep_view(),
                    ));
                }
            } else {
                proof {
                    assert(!fpred(xv));
                    assert(kept_facts.deep_view() == other@.facts.take(j + 1 as int).filter(
                        fpred,
                    ));
                }
            }
            j += 1;
        }
        proof {
            assert(other@.facts.take(ofacts.len() as int) =~= other@.facts);
            assert(kept_facts.deep_view() == admitted_facts(other@.facts, self@.fact_syms));
        }

        // The admitted declarations keep their section's shape, and every
        // admitted fact stays a let-binding.
        proof {
            assert forall|k: int|
                0 <= k < kept_sorts.deep_view().len() implies is_sort_shaped(
                #[trigger] kept_sorts.deep_view()[k],
            ) by {
                let kv = kept_sorts.deep_view();
                assert(kv.contains(kv[k]));
                other@.sorts.lemma_filter_contains_rev(spred, kv[k]);
                let w = choose|w: int| 0 <= w < other@.sorts.len() && other@.sorts[w] == kv[k];
                assert(is_sort_shaped(other@.sorts[w]));
            }
            assert forall|k: int|
                0 <= k < kept_facts.deep_view().len() implies is_action_shaped(
                #[trigger] kept_facts.deep_view()[k],
            ) && is_let_shaped(#[trigger] kept_facts.deep_view()[k]) by {
                let kv = kept_facts.deep_view();
                assert(kv.contains(kv[k]));
                other@.facts.lemma_filter_contains_rev(fpred, kv[k]);
                let w = choose|w: int| 0 <= w < other@.facts.len() && other@.facts[w] == kv[k];
                assert(is_action_shaped(other@.facts[w]));
                assert(is_let_shaped(other@.facts[w]));
            }
        }

        let combined_sorts = self.sorts.1.clone().add_sorts(kept_sorts);
        let combined_facts = self.facts.1.clone().add_facts(kept_facts);

        // Rule and schedule fragments: left operand's, then right operand's.
        let mut combined_rules = clone_rule_list(&self.rules);
        let orules = &other.rules;
        let mut k: usize = 0;
        while k < orules.len()
            invariant
                0 <= k <= orules.len(),
                combined_rules.deep_view() == self@.rules + orules.deep_view().take(k as int),
            decreases orules.len() - k,
        {
            let ghost prev = combined_rules.deep_view();
            combined_rules.push(orules[k].clone());
            proof {
                assert(combined_rules.deep_view() =~= prev.push(orules@[k as int]@));
                assert(orules.deep_view().take(k + 1 as int) =~= orules.deep_view().take(
                    k as int,
                ).push(orules@[k as int]@));
                assert(combined_rules.deep_view() =~= self@.rules + orules.deep_view().take(
                    k + 1 as int,
                ));
            }
            k += 1;
        }
        proof {
            assert(orules.deep_view().take(orules.len() as int) =~= orules.deep_view());
        }

        let mut combined_schedules = clone_schedule_list(&self.schedules);
        let oscheds = &other.schedules;
        let mut m: usize = 0;
        while m < oscheds.len()
            invariant
                0 <= m <= oscheds.len(),
                combined_schedules.deep_view() == self@.schedules + oscheds.deep_view().take(
                    m as int,
                ),
            decreases oscheds.len() - m,
        {
            let ghost prev = combined_schedules.deep_view();
            combined_schedules.push(oscheds[m].clone());
            proof {
                assert(combined_schedules.deep_view() =~= prev.push(oscheds@[m as int]@));
                assert(oscheds.deep_view().take(m + 1 as int) =~= oscheds.deep_view().take(
                    m as int,
                ).push(oscheds@[m as int]@));
                assert(combined_schedules.deep_view() =~= self@.schedules
                    + oscheds.deep_view().take(m + 1 as int));
            }
            m += 1;
        }
        proof {
            assert(oscheds.deep_view().take(oscheds.len() as int) =~= oscheds.deep_view());
        }

        let combined_bindings = self.bindings.union(&other.bindings);

        let r = EgglogProgram {
            sorts: (sort_idx, combined_sorts),
            facts: (fact_idx, combined_facts),
            rules: combined_rules,
            bindings: combined_bindings,
            schedules: combined_schedules,
        };
        proof {
            assert(r@ =~= combined_view(self@, other@));
            if self.indexed() {
                lemma_combined_indexed(self@, other@);
            }
            if self.exact() {
                lemma_combined_exact(self@, other@);
            }
        }
        r
    }

    /// Merge `rhs` into `self`, consuming both operands.  The result is
    /// the same program `combine` produces; only ownership differs.
    pub fn add(self, rhs: Self) -> (r: Self)
        requires
            self.wf(),
            rhs.wf(),
        ensures
            r@ == combined_view(self@, rhs@),
            r.wf(),
            self.indexed() ==> r.indexed(),
            self.exact() ==> r.exact(),
    {
        self.combine(&rhs)
    }
}

impl EgglogProgram {
    /// Flatten into the one command sequence the engine consumes: sorts,
    /// then facts, then rule fragments in fragment order, then schedule
    /// fragments, each sub-sequence in insertion order.  Bindings are
    /// never emitted.
    #[verifier::loop_isolation(false)]
    pub fn flatten(self) -> (r: EgglogCommandList)
        ensures
            r.deep_view() == flattened_view(self@),
    {
        let mut out: Vec<Command> = Vec::new();
        proof {
            assert(out.deep_view() =~= Seq::<CommandView>::empty());
        }
        append_commands(&mut out, self.sorts.1.commands());
        proof {
            assert(out.deep_view() =~= self@.sorts);
        }
        append_commands(&mut out, self.facts.1.commands());

        let mut i: usize = 0;
        while i < self.rules.len()
            invariant
                0 <= i <= self.rules.len(),
                out.deep_view() == self@.sorts + self@.facts + concat_frags(
                    self@.rules.take(i as int),
                ),
            decreases self.rules.len() - i,
        {
            append_commands(&mut out, self.rules[i].commands());
            proof {
                assert(self@.rules.take(i + 1 as int).drop_last() =~= self@.rules.take(i as int));
                assert(self@.rules.take(i + 1 as int).last() == self@.rules[i as int]);
                assert(self.rules@[i as int]@ == self@.rules[i as int]);
                assert(out.deep_view() =~= self@.sorts + self@.facts + concat_frags(
                    self@.rules.take(i + 1 as int),
                ));
            }
            i += 1;
        }
        proof {
            assert(self@.rules.take(self.rules.len() as int) =~= self@.rules);
        }

        let mut j: usize = 0;
        while j < self.schedules.len()
            invariant
                0 <= j <= self.schedules.len(),
                out.deep_view() == self@.sorts + self@.facts + concat_frags(self@.rules)
                    + concat_frags(self@.schedules.take(j as int)),
            decreases self.schedules.len() - j,
        {
            append_commands(&mut out, self.schedules[j].commands());
            proof {
                assert(self@.schedules.take(j + 1 as int).drop_last() =~= self@.schedules.take(
                    j as int,
                ));
                assert(self@.schedules.take(j + 1 as int).last() == self@.schedules[j as int]);
                assert(self.schedules@[j as int]@ == self@.schedules[j as int]);
                assert(out.deep_view() =~= self@.sorts + self@.facts + concat_frags(self@.rules)
                    + concat_frags(self@.schedules.take(j + 1 as int)));
            }
            j += 1;
        }
        proof {
            assert(self@.schedules.take(self.schedules.len() as int) =~= self@.schedules);
            assert(out.deep_view() =~= flattened_view(self@));
        }
        out
    }
}

/// Append a copy of every command of `src` to `out`, in order.
#[verifier::loop_isolation(false)]
fn append_commands(out: &mut Vec<Command>, src: &Vec<Command>)
    ensures
        final(out).deep_view() == old(out).deep_view() + src.deep_view(),
{
    let mut i: usize = 0;
    while i < src.len()
        invariant
            0 <= i <= src.len(),
            out.deep_view() == old(out).deep_view() + src.deep_view().take(i as int),
        decreases src.len() - i,
    {
        let ghost prev = out.deep_view();
        out.push(src[i].clone());
        proof {
            assert(out.deep_view() =~= prev.push(src@[i as int]@));
            assert(src.deep_view().take(i + 1 as int) =~= src.deep_view().take(i as int).push(
                src@[i as int]@,
            ));
            assert(out.deep_view() =~= old(out).deep_view() + src.deep_view().take(i + 1 as int));
        }
        i += 1;
    }
    proof {
        assert(src.deep_view().take(src.len() as int) =~= src.deep_view());
    }
}

/// The index a sorts section derives, as a fresh symbol set: every
/// declared symbol of every declaration, first occurrence first.
#[verifier::loop_isolation(false)]
pub fn derive_sort_index(sorts: &EgglogSorts) -> (r: EgglogSymbols)
    requires
        sorts.wf(),
    ensures
        r@ == sort_index_view(sorts@),
        r.wf(),
{
    let mut idx = EgglogSymbols::new();
    let cmds = sorts.commands();
    let mut i: usize = 0;
    while i < cmds.len()
        invariant
            0 <= i <= cmds.len(),
            idx@ == sort_index_view(sorts@.take(i as int)),
            idx.wf(),
        decreases cmds.len() - i,
    {
        let ghost xv = sorts@[i as int];
        proof {
            assert(cmds@[i as int]@ == xv);
        }
        let syms = match get_sort_symbol(&cmds[i]) {
            Ok(s) => s,
            Err(_) => unreached(),
        };
        idx.insert_all(&syms);
        proof {
            assert(sorts@.take(i + 1 as int).drop_last() =~= sorts@.take(i as int));
            assert(sorts@.take(i + 1 as int).last() == xv);
            assert(idx@ == sort_index_view(sorts@.take(i + 1 as int)));
        }
        i += 1;
    }
    proof {
        assert(sorts@.take(cmds.len() as int) =~= sorts@);
    }
    idx
}

/// The index a facts section derives, as a fresh symbol set: every bound
/// symbol, first occurrence first.
#[verifier::loop_isolation(false)]
pub fn derive_fact_index(facts: &EgglogFacts) -> (r: EgglogSymbols)
    requires
        facts.wf(),
        facts.all_lets(),
    ensures
        r@ == fact_index_view(facts@),
        r.wf(),
{
    let mut idx = EgglogSymbols::new();
    let cmds = facts.commands();
    let mut i: usize = 0;
    while i < cmds.len()
        invariant
            0 <= i <= cmds.len(),
            idx@ == fact_index_view(facts@.take(i as int)),
            idx.wf(),
        decreases cmds.len() - i,
    {
        let ghost xv = facts@[i as int];
        proof {
            assert(cmds@[i as int]@ == xv);
        }
        let sym = match get_fact_symbol(&cmds[i]) {
            Ok(s) => s,
            Err(_) => unreached(),
        };
        idx.insert(sym);
        proof {
            assert(facts@.take(i + 1 as int).drop_last() =~= facts@.take(i as int));
            assert(facts@.take(i + 1 as int).last() == xv);
            assert(idx@ == fact_index_view(facts@.take(i + 1 as int)));
        }
        i += 1;
    }
    proof {
        assert(facts@.take(cmds.len() as int) =~= facts@);
    }
    idx
}

/// Extending an index by a concatenation is extending it twice.
pub proof fn lemma_sort_index_extend_concat(
    idx: Seq<Seq<char>>,
    x: Seq<CommandView>,
    y: Seq<CommandView>,
)
    ensures
        sort_index_extend(idx, x + y) == sort_index_extend(sort_index_extend(idx, x), y),
    decreases y.len(),
{
    if y.len() == 0 {
        assert(x + y =~= x);
    } else {
        lemma_sort_index_extend_concat(idx, x, y.drop_last());
        assert((x + y).drop_last() =~= x + y.drop_last());
        assert((x + y).last() == y.last());
    }
}

/// Extending an index by a concatenation is extending it twice.
pub proof fn lemma_fact_index_extend_concat(
    idx: Seq<Seq<char>>,
    x: Seq<CommandView>,
    y: Seq<CommandView>,
)
    ensures
        fact_index_extend(idx, x + y) == fact_index_extend(fact_index_extend(idx, x), y),
    decreases y.len(),
{
    if y.len() == 0 {
        assert(x + y =~= x);
    } else {
        lemma_fact_index_extend_concat(idx, x, y.drop_last());
        assert((x + y).drop_last() =~= x + y.drop_last());
        assert((x + y).last() == y.last());
    }
}

/// What the extended sort index holds: the base symbols and the declared
/// symbols of the given declarations, nothing else.
pub proof fn lemma_sort_index_extend_contains(idx: Seq<Seq<char>>, cmds: Seq<CommandView>)
    ensures
        forall|s: Seq<char>|
            #[trigger] sort_index_extend(idx, cmds).contains(s) <==> idx.contains(s) || (exists|j: int|
                0 <= j < cmds.len() && (#[trigger] sort_symbols_view(cmds[j])).contains(s)),
    decreases cmds.len(),
{
    if cmds.len() == 0 {
        assert forall|s: Seq<char>|
            #[trigger] sort_index_extend(idx, cmds).contains(s) <==> idx.contains(s) || (exists|j: int|
                0 <= j < cmds.len() && (#[trigger] sort_symbols_view(cmds[j])).contains(s)) by {}
    } else {
        let d = cmds.drop_last();
        lemma_sort_index_extend_contains(idx, d);
        crate::symbols::lemma_append_unique_contains(
            sort_index_extend(idx, d),
            sort_symbols_view(cmds.last()),
        );
        assert forall|s: Seq<char>|
            #[trigger] sort_index_extend(idx, cmds).contains(s) <==> idx.contains(s) || (exists|j: int|
                0 <= j < cmds.len() && (#[trigger] sort_symbols_view(cmds[j])).contains(s)) by {
            if sort_index_extend(idx, cmds).contains(s) {
                if !idx.contains(s) {
                    if sort_index_extend(idx, d).contains(s) {
                        let j = choose|j: int|
                            0 <= j < d.len() && (#[trigger] sort_symbols_view(d[j])).contains(s);
                        assert(d[j] == cmds[j]);
                        assert(sort_symbols_view(cmds[j]).contains(s));
                    } else {
                        assert(sort_symbols_view(cmds.last()).contains(s));
                        assert(sort_symbols_view(cmds[cmds.len() - 1]).contains(s));
                    }
                }
            }
            if idx.contains(s) {
                assert(sort_index_extend(idx, d).contains(s));
            }
            if exists|j: int|
                0 <= j < cmds.len() && (#[trigger] sort_symbols_view(cmds[j])).contains(s) {
                let j = choose|j: int|
                    0 <= j < cmds.len() && (#[trigger] sort_symbols_view(cmds[j])).contains(s);
                if j < cmds.len() - 1 {
                    assert(d[j] == cmds[j]);
                    assert(sort_symbols_view(d[j]).contains(s));
                    assert(sort_index_extend(idx, d).contains(s));
                } else {
                    assert(sort_symbols_view(cmds.last()).contains(s));
                }
            }
        }
    }
}

/// What the extended fact index holds: the base symbols and the bound
/// symbols of the given declarations, nothing else.
pub proof fn lemma_fact_index_extend_contains(idx: Seq<Seq<char>>, cmds: Seq<CommandView>)
    ensures
        forall|s: Seq<char>|
            #[trigger] fact_index_extend(idx, cmds).contains(s) <==> idx.contains(s) || (exists|j: int|
                0 <= j < cmds.len() && fact_symbol_view(#[trigger] cmds[j]) == s),
    decreases cmds.len(),
{
    if cmds.len() == 0 {
        assert forall|s: Seq<char>|
            #[trigger] fact_index_extend(idx, cmds).contains(s) <==> idx.contains(s) || (exists|j: int|
                0 <= j < cmds.len() && fact_symbol_view(#[trigger] cmds[j]) == s) by {}
    } else {
        let d = cmds.drop_last();
        lemma_fact_index_extend_contains(idx, d);
        crate::symbols::lemma_push_unique_contains(
            fact_index_extend(idx, d),
            fact_symbol_view(cmds.last()),
        );
        assert forall|s: Seq<char>|
            #[trigger] fact_index_extend(idx, cmds).contains(s) <==> idx.contains(s) || (exists|j: int|
                0 <= j < cmds.len() && fact_symbol_view(#[trigger] cmds[j]) == s) by {
            if fact_index_extend(idx, cmds).contains(s) {
                if !idx.contains(s) {
                    if fact_index_extend(idx, d).contains(s) {
                        let j = choose|j: int|
                            0 <= j < d.len() && fact_symbol_view(#[trigger] d[j]) == s;
                        assert(d[j] == cmds[j]);
                        assert(fact_symbol_view(cmds[j]) == s);
                    } else {
                        assert(fact_symbol_view(cmds[cmds.len() - 1]) == s);
                    }
                }
            }
            if idx.contains(s) {
                assert(fact_index_extend(idx, d).contains(s));
            }
            if exists|j: int| 0 <= j < cmds.len() && fact_symbol_view(#[trigger] cmds[j]) == s {
                let j = choose|j: int|
                    0 <= j < cmds.len() && fact_symbol_view(#[trigger] cmds[j]) == s;
                if j < cmds.len() - 1 {
                    assert(d[j] == cmds[j]);
                    assert(fact_symbol_view(d[j]) == s);
                    assert(fact_index_extend(idx, d).contains(s));
                } else {
                    assert(fact_symbol_view(cmds.last()) == s);
                }
            }
        }
    }
}

/// Extending a duplicate-free index keeps it duplicate-free.
pub proof fn lemma_sort_index_extend_no_duplicates(idx: Seq<Seq<char>>, cmds: Seq<CommandView>)
    requires
        idx.no_duplicates(),
    ensures
        sort_index_extend(idx, cmds).no_duplicates(),
    decreases cmds.len(),
{
    if cmds.len() > 0 {
        lemma_sort_index_extend_no_duplicates(idx, cmds.drop_last());
        crate::symbols::lemma_append_unique_no_duplicates(
            sort_index_extend(idx, cmds.drop_last()),
            sort_symbols_view(cmds.last()),
        );
    }
}

/// Extending a duplicate-free index keeps it duplicate-free.
pub proof fn lemma_fact_index_extend_no_duplicates(idx: Seq<Seq<char>>, cmds: Seq<CommandView>)
    requires
        idx.no_duplicates(),
    ensures
        fact_index_extend(idx, cmds).no_duplicates(),
    decreases cmds.len(),
{
    if cmds.len() > 0 {
        lemma_fact_index_extend_no_duplicates(idx, cmds.drop_last());
        crate::symbols::lemma_push_unique_no_duplicates(
            fact_index_extend(idx, cmds.drop_last()),
            fact_symbol_view(cmds.last()),
        );
    }
}

/// Extending an index keeps it as an unchanged prefix.
pub proof fn lemma_sort_index_extend_prefix(idx: Seq<Seq<char>>, cmds: Seq<CommandView>)
    ensures
        sort_index_extend(idx, cmds).len() >= idx.len(),
        sort_index_extend(idx, cmds).take(idx.len() as int) == idx,
    decreases cmds.len(),
{
    if cmds.len() == 0 {
        assert(sort_index_extend(idx, cmds).take(idx.len() as int) =~= idx);
    } else {
        lemma_sort_index_extend_prefix(idx, cmds.drop_last());
        crate::symbols::lemma_append_unique_prefix(
            sort_index_extend(idx, cmds.drop_last()),
            sort_symbols_view(cmds.last()),
        );
        assert(sort_index_extend(idx, cmds).take(idx.len() as int) =~= idx);
    }
}

/// Extending an index keeps it as an unchanged prefix.
pub proof fn lemma_fact_index_extend_prefix(idx: Seq<Seq<char>>, cmds: Seq<CommandView>)
    ensures
        fact_index_extend(idx, cmds).len() >= idx.len(),
        fact_index_extend(idx, cmds).take(idx.len() as int) == idx,
    decreases cmds.len(),
{
    if cmds.len() == 0 {
        assert(fact_index_extend(idx, cmds).take(idx.len() as int) =~= idx);
    } else {
        lemma_fact_index_extend_prefix(idx, cmds.drop_last());
        let d = fact_index_extend(idx, cmds.drop_last());
        assert(fact_index_extend(idx, cmds).take(idx.len() as int) =~= idx) by {
            if !d.contains(fact_symbol_view(cmds.last())) {
                assert(forall|i: int|
                    0 <= i < idx.len() ==> d.push(fact_symbol_view(cmds.last()))[i] == d[i]);
            }
        }
    }
}

/// The derived sort index records the primary symbol (and every declared
/// symbol) of every declaration in the section.
pub proof fn lemma_sort_index_contains(cmds: Seq<CommandView>)
    requires
        forall|i: int| 0 <= i < cmds.len() ==> is_sort_shaped(#[trigger] cmds[i]),
    ensures
        forall|i: int|
            0 <= i < cmds.len() ==> sort_index_view(cmds).contains(
                primary_sort_symbol(#[trigger] cmds[i]),
            ),
    decreases cmds.len(),
{
    if cmds.len() > 0 {
        let d = cmds.drop_last();
        assert forall|i: int| 0 <= i < d.len() implies is_sort_shaped(#[trigger] d[i]) by {
            assert(d[i] == cmds[i]);
        }
        lemma_sort_index_contains(d);
        crate::symbols::lemma_append_unique_contains(
            sort_index_view(d),
            sort_symbols_view(cmds.last()),
        );
        assert forall|i: int|
            0 <= i < cmds.len() implies sort_index_view(cmds).contains(
            primary_sort_symbol(#[trigger] cmds[i]),
        ) by {
            if i < cmds.len() - 1 {
                assert(d[i] == cmds[i]);
                assert(sort_index_view(d).contains(primary_sort_symbol(cmds[i])));
            } else {
                assert(is_sort_shaped(cmds[i]));
                assert(sort_symbols_view(cmds.last()).len() >= 1);
                assert(sort_symbols_view(cmds.last()).contains(primary_sort_symbol(cmds.last())))
                    by {
                    assert(sort_symbols_view(cmds.last())[0] == primary_sort_symbol(cmds.last()));
                }
            }
        }
    }
}

/// The derived fact index records the bound symbol of every fact in the
/// section.
pub proof fn lemma_fact_index_contains(cmds: Seq<CommandView>)
    ensures
        forall|i: int|
            0 <= i < cmds.len() ==> fact_index_view(cmds).contains(
                fact_symbol_view(#[trigger] cmds[i]),
            ),
    decreases cmds.len(),
{
    if cmds.len() > 0 {
        let d = cmds.drop_last();
        lemma_fact_index_contains(d);
        let base = fact_index_view(d);
        let s = fact_symbol_view(cmds.last());
        assert forall|i: int|
            0 <= i < cmds.len() implies fact_index_view(cmds).contains(
            fact_symbol_view(#[trigger] cmds[i]),
        ) by {
            let v = fact_symbol_view(cmds[i]);
            if i < cmds.len() - 1 {
                assert(d[i] == cmds[i]);
                assert(base.contains(v));
                let w = choose|w: int| 0 <= w < base.len() && base[w] == v;
                if base.contains(s) {
                    assert(fact_index_view(cmds)[w] == v);
                } else {
                    assert(base.push(s)[w] == v);
                }
            } else {
                if base.contains(s) {
                    assert(fact_index_view(cmds) == base);
                } else {
                    assert(base.push(s)[base.len() as int] == s);
                }
            }
        }
    }
}

/// Copy a rule fragment list element by element.
fn clone_rule_list(rules: &EgglogRuleList) -> (r: EgglogRuleList)
    ensures
        r.deep_view() == rules.deep_view(),
{
    let mut out: EgglogRuleList = Vec::new();
    let mut i: usize = 0;
    while i < rules.len()
        invariant
            0 <= i <= rules.len(),
            out.deep_view() =~= rules.deep_view().take(i as int),
        decreases rules.len() - i,
    {
        let ghost prev = out.deep_view();
        out.push(rules[i].clone());
        proof {
            assert(out.deep_view() =~= prev.push(rules@[i as int]@));
            assert(out.deep_view() =~= rules.deep_view().take(i + 1 as int));
        }
        i += 1;
    }
    proof {
        assert(rules.deep_view().take(rules.len() as int) =~= rules.deep_view());
    }
    out
}

/// Copy a schedule fragment list element by element.
fn clone_schedule_list(schedules: &EgglogScheduleList) -> (r: EgglogScheduleList)
    ensures
        r.deep_view() == schedules.deep_view(),
{
    let mut out: EgglogScheduleList = Vec::new();
    let mut i: usize = 0;
    while i < schedules.len()
        invariant
            0 <= i <= schedules.len(),
            out.deep_view() =~= schedules.deep_view().take(i as int),
        decreases schedules.len() - i,
    {
        let ghost prev = out.deep_view();
        out.push(schedules[i].clone());
        proof {
            assert(out.deep_view() =~= prev.push(schedules@[i as int]@));
            assert(out.deep_view() =~= schedules.deep_view().take(i + 1 as int));
        }
        i += 1;
    }
    proof {
        assert(schedules.deep_view().take(schedules.len() as int) =~= schedules.deep_view());
    }
    out
}

} // verus!
