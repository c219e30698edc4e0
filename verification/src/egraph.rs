//! Staged construction of a program along one linear sequence of stages.
//!
//! A simpler variant of the staged builder: sorts, then facts, then
//! rules, then schedules, then bindings, then the program.  Each stage is
//! a distinct builder type, so calling a stage out of order is rejected
//! at compile time.

use core::marker::PhantomData;

use vstd::prelude::*;

use crate::facts::EgglogFacts;
use crate::program::{
    derive_fact_index, derive_sort_index, empty_view, fact_index_view, lemma_fact_index_contains,
    lemma_sort_index_contains, sort_index_view, view_exact, view_indexed, view_wf, EgglogProgram,
    ProgramView,
};
use crate::rules::EgglogRules;
use crate::schedule::EgglogSchedules;
use crate::sorts::EgglogSorts;
use crate::symbols::EgglogSymbols;

verus! {

/// Stage: nothing supplied yet.
pub struct InitState;

/// Stage: the sorts section and its index are set.
pub struct SortsState;

/// Stage: the facts section and its index are set.
pub struct FactsState;

/// Stage: the rule fragment is loaded.
pub struct RulesState;

/// Stage: the schedule fragment is set.
pub struct SchedulesState;

/// Stage: the bound symbols are set; the program can be produced.
pub struct BindingsState;

/// A program under staged construction, one stage at a time.
pub struct EgglogProgramBuilder<State> {
    sorts: (EgglogSymbols, EgglogSorts),
    facts: (EgglogSymbols, EgglogFacts),
    rules: Vec<EgglogRules>,
    schedules: Vec<EgglogSchedules>,
    bindings: EgglogSymbols,
    marker: PhantomData<State>,
}

impl<State> View for EgglogProgramBuilder<State> {
    type V = ProgramView;

    closed spec fn view(&self) -> ProgramView {
        ProgramView {
            sort_syms: self.sorts.0@,
            sorts: self.sorts.1@,
            fact_syms: self.facts.0@,
            facts: self.facts.1@,
            rules: self.rules.deep_view(),
            schedules: self.schedules.deep_view(),
            bindings: self.bindings@,
        }
    }
}

impl<State> EgglogProgramBuilder<State> {
    /// The parts gathered so far are well-formed and the indices are
    /// exactly what the sections derive.
    pub open spec fn wf(&self) -> bool {
        view_wf(self@) && view_exact(self@)
    }
}

impl EgglogProgramBuilder<InitState> {
    /// Start a fresh build.
    pub fn new() -> (r: Self)
        ensures
            r@ == empty_view(),
            r.wf(),
    {
        let r = EgglogProgramBuilder {
            sorts: (EgglogSymbols::new(), EgglogSorts::new()),
            facts: (EgglogSymbols::new(), EgglogFacts::new()),
            rules: Vec::new(),
            schedules: Vec::new(),
            bindings: EgglogSymbols::new(),
            marker: PhantomData,
        };
        proof {
            assert(r.rules.deep_view() =~= Seq::<Seq<crate::command::CommandView>>::empty());
            assert(r.schedules.deep_view() =~= Seq::<Seq<crate::command::CommandView>>::empty());
            assert(r@ =~= empty_view());
        }
        r
    }

    /// Supply the sorts section; its symbol index is derived here.
    pub fn sorts(self, sorts: EgglogSorts) -> (r: EgglogProgramBuilder<SortsState>)
        requires
            self.wf(),
            sorts.wf(),
        ensures
            r@ == (ProgramView { sort_syms: sort_index_view(sorts@), sorts: sorts@, ..self@ }),
            r.wf(),
    {
        let idx = derive_sort_index(&sorts);
        let r = EgglogProgramBuilder {
            sorts: (idx, sorts),
            facts: self.facts,
            rules: self.rules,
            schedules: self.schedules,
            bindings: self.bindings,
            marker: PhantomData,
        };
        proof {
            assert(r@ =~= (ProgramView {
                sort_syms: sort_index_view(sorts@),
                sorts: sorts@,
                ..self@
            }));
        }
        r
    }
}

impl EgglogProgramBuilder<SortsState> {
    /// Supply the facts section; its symbol index is derived here.  Every
    /// fact must be a let-binding.
    pub fn facts(self, facts: EgglogFacts) -> (r: EgglogProgramBuilder<FactsState>)
        requires
            self.wf(),
            facts.wf(),
            facts.all_lets(),
        ensures
            r@ == (ProgramView { fact_syms: fact_index_view(facts@), facts: facts@, ..self@ }),
            r.wf(),
    {
        let idx = derive_fact_index(&facts);
        let r = EgglogProgramBuilder {
            sorts: self.sorts,
            facts: (idx, facts),
            rules: self.rules,
            schedules: self.schedules,
            bindings: self.bindings,
            marker: PhantomData,
        };
        proof {
            assert(r@ =~= (ProgramView {
                fact_syms: fact_index_view(facts@),
                facts: facts@,
                ..self@
            }));
        }
        r
    }
}

impl EgglogProgramBuilder<FactsState> {
    /// Load one rule fragment: the fragment list becomes that single
    /// fragment.
    pub fn rules(self, rules: EgglogRules) -> (r: EgglogProgramBuilder<RulesState>)
        requires
            self.wf(),
            rules.wf(),
        ensures
            r@ == (ProgramView { rules: seq![rules@], ..self@ }),
            r.wf(),
    {
        let mut fragment: Vec<EgglogRules> = Vec::new();
        fragment.push(rules);
        let r = EgglogProgramBuilder {
            sorts: self.sorts,
            facts: self.facts,
            rules: fragment,
            schedules: self.schedules,
            bindings: self.bindings,
            marker: PhantomData,
        };
        proof {
            assert(r.rules.deep_view() =~= seq![r.rules@[0]@]);
            assert(r@ =~= (ProgramView { rules: seq![r.rules@[0]@], ..self@ }));
        }
        r
    }
}

impl EgglogProgramBuilder<RulesState> {
    /// Set one schedule fragment.
    pub fn schedules(self, schedules: EgglogSchedules) -> (r: EgglogProgramBuilder<SchedulesState>)
        requires
            self.wf(),
            schedules.wf(),
        ensures
            r@ == (ProgramView { schedules: seq![schedules@], ..self@ }),
            r.wf(),
    {
        let mut fragment: Vec<EgglogSchedules> = Vec::new();
        fragment.push(schedules);
        let r = EgglogProgramBuilder {
            sorts: self.sorts,
            facts: self.facts,
            rules: self.rules,
            schedules: fragment,
            bindings: self.bindings,
            marker: PhantomData,
        };
        proof {
            assert(r.schedules.deep_view() =~= seq![r.schedules@[0]@]);
            assert(r@ =~= (ProgramView { schedules: seq![r.schedules@[0]@], ..self@ }));
        }
        r
    }
}

impl EgglogProgramBuilder<SchedulesState> {
    /// Bind the program's free symbols.
    pub fn bindings(self, bindings: EgglogSymbols) -> (r: EgglogProgramBuilder<BindingsState>)
        requires
            self.wf(),
            bindings.wf(),
        ensures
            r@ == (ProgramView { bindings: bindings@, ..self@ }),
            r.wf(),
    {
        let r = EgglogProgramBuilder {
            sorts: self.sorts,
            facts: self.facts,
            rules: self.rules,
            schedules: self.schedules,
            bindings,
            marker: PhantomData,
        };
        proof {
            assert(r@ =~= (ProgramView { bindings: r.bindings@, ..self@ }));
        }
        r
    }
}

impl EgglogProgramBuilder<BindingsState> {
    /// Produce the fully populated program: every stage complete.
    pub fn program(self) -> (r: EgglogProgram)
        requires
            self.wf(),
        ensures
            r@ == self@,
            r.wf(),
            r.indexed(),
            r.exact(),
    {
        proof {
            lemma_sort_index_contains(self@.sorts);
            lemma_fact_index_contains(self@.facts);
            assert(view_indexed(self@));
        }
        EgglogProgram::from_parts(
            self.sorts,
            self.facts,
            self.rules,
            self.bindings,
            self.schedules,
        )
    }
}

} // verus!
