//! Staged construction of a program across three independent axes.
//!
//! The sorts axis must advance first; after that the facts/bindings axis
//! and the rules/schedules axis may advance independently, each strictly
//! in order.  Every reachable combination of axis states is a distinct
//! builder type, so calling an operation out of order is rejected at
//! compile time.  Four terminal operations assemble a program from any
//! consistent combination of completed axes, defaulting the unset parts
//! to empty.

use core::marker::PhantomData;

use vstd::prelude::*;

use crate::facts::EgglogFacts;
use crate::program::{
    derive_fact_index, derive_sort_index, empty_view, fact_index_view, lemma_fact_index_contains,
    lemma_sort_index_contains, sort_index_view, view_exact, view_indexed, view_wf, EgglogProgram,
    ProgramView,
};
use crate::rules::EgglogRules;
use crate::schedule::EgglogSchedules;
use crate::sorts::EgglogSorts;
use crate::symbols::EgglogSymbols;

verus! {

/// Axis state: nothing supplied on this axis yet.
pub struct Initial;

/// Sorts axis: the sorts section and its index are set.
pub struct DefinedSorts;

/// Facts axis: the facts section and its index are set.
pub struct FactsPresent;

/// Facts axis: the bound symbols are set, after the facts.
pub struct BoundSymbols;

/// Rules axis: the rule fragment is loaded.
pub struct LoadedRules;

/// Rules axis: the schedule fragment is set, after the rules.
pub struct AddedSchedules;

/// A program under staged construction.  The three type parameters are
/// the sorts, facts/bindings and rules/schedules axis states.
pub struct EgglogProgramBuilder<S, F, R> {
    sorts: (EgglogSymbols, EgglogSorts),
    facts: (EgglogSymbols, EgglogFacts),
    rules: Vec<EgglogRules>,
    bindings: EgglogSymbols,
    schedules: Vec<EgglogSchedules>,
    marker: PhantomData<(S, F, R)>,
}

impl<S, F, R> View for EgglogProgramBuilder<S, F, R> {
    type V = ProgramView;

    closed spec fn view(&self) -> ProgramView {
        ProgramView {
            sort_syms: self.sorts.0@,
            sorts: self.sorts.1@,
            fact_syms: self.facts.0@,
            facts: self.facts.1@,
            rules: self.rules.deep_view(),
            schedules: self.schedules.deep_view(),
            bindings: self.bindings@,
        }
    }
}

impl<S, F, R> EgglogProgramBuilder<S, F, R> {
    /// The parts gathered so far are well-formed and the indices are
    /// exactly what the sections derive.
    pub open spec fn wf(&self) -> bool {
        view_wf(self@) && view_exact(self@)
    }
}

impl EgglogProgramBuilder<Initial, Initial, Initial> {
    /// Start a fresh build: nothing supplied on any axis.
    pub fn initialize() -> (r: Self)
        ensures
            r@ == empty_view(),
            r.wf(),
    {
        let r = EgglogProgramBuilder {
            sorts: (EgglogSymbols::new(), EgglogSorts::new()),
            facts: (EgglogSymbols::new(), EgglogFacts::new()),
            rules: Vec::new(),
            bindings: EgglogSymbols::new(),
            schedules: Vec::new(),
            marker: PhantomData,
        };
        proof {
            assert(r.rules.deep_view() =~= Seq::<Seq<crate::command::CommandView>>::empty());
            assert(r.schedules.deep_view() =~= Seq::<Seq<crate::command::CommandView>>::empty());
            assert(r@ =~= empty_view());
        }
        r
    }

    /// Supply the sorts section; its symbol index is derived here.  The
    /// global precondition of every later stage.
    pub fn sorts(self, sorts: EgglogSorts) -> (r: EgglogProgramBuilder<DefinedSorts, Initial, Initial>)
        requires
            self.wf(),
            sorts.wf(),
        ensures
            r@ == (ProgramView { sort_syms: sort_index_view(sorts@), sorts: sorts@, ..self@ }),
            r.wf(),
    {
        let idx = derive_sort_index(&sorts);
        let r = EgglogProgramBuilder {
            sorts: (idx, sorts),
            facts: self.facts,
            rules: self.rules,
            bindings: self.bindings,
            schedules: self.schedules,
            marker: PhantomData,
        };
        proof {
            assert(r@ =~= (ProgramView {
                sort_syms: sort_index_view(sorts@),
                sorts: sorts@,
                ..self@
            }));
        }
        r
    }
}

impl<R> EgglogProgramBuilder<DefinedSorts, Initial, R> {
    /// Supply the facts section; its symbol index is derived here.  Every
    /// fact must be a let-binding.
    pub fn facts(self, facts: EgglogFacts) -> (r: EgglogProgramBuilder<DefinedSorts, FactsPresent, R>)
        requires
            self.wf(),
            facts.wf(),
            facts.all_lets(),
        ensures
            r@ == (ProgramView { fact_syms: fact_index_view(facts@), facts: facts@, ..self@ }),
            r.wf(),
    {
        let idx = derive_fact_index(&facts);
        let r = EgglogProgramBuilder {
            sorts: self.sorts,
            facts: (idx, facts),
            rules: self.rules,
            bindings: self.bindings,
            schedules: self.schedules,
            marker: PhantomData,
        };
        proof {
            assert(r@ =~= (ProgramView {
                fact_syms: fact_index_view(facts@),
                facts: facts@,
                ..self@
            }));
        }
        r
    }
}

impl<F> EgglogProgramBuilder<DefinedSorts, F, Initial> {
    /// Load one rule fragment: the fragment list becomes that single
    /// fragment.
    pub fn rules(self, rules: EgglogRules) -> (r: EgglogProgramBuilder<DefinedSorts, F, LoadedRules>)
        requires
            self.wf(),
            rules.wf(),
        ensures
            r@ == (ProgramView { rules: seq![rules@], ..self@ }),
            r.wf(),
    {
        let mut fragment: Vec<EgglogRules> = Vec::new();
        fragment.push(rules);
        let r = EgglogProgramBuilder {
            sorts: self.sorts,
            facts: self.facts,
            rules: fragment,
            bindings: self.bindings,
            schedules: self.schedules,
            marker: PhantomData,
        };
        proof {
            assert(r.rules.deep_view() =~= seq![r.rules@[0]@]);
            assert(r@ =~= (ProgramView { rules: seq![r.rules@[0]@], ..self@ }));
        }
        r
    }
}

impl<R> EgglogProgramBuilder<DefinedSorts, FactsPresent, R> {
    /// Bind the program's free symbols, after the facts.
    pub fn bindings(self, bindings: EgglogSymbols) -> (r: EgglogProgramBuilder<
        DefinedSorts,
        BoundSymbols,
        R,
    >)
        requires
            self.wf(),
            bindings.wf(),
        ensures
            r@ == (ProgramView { bindings: bindings@, ..self@ }),
            r.wf(),
    {
        let r = EgglogProgramBuilder {
            sorts: self.sorts,
            facts: self.facts,
            rules: self.rules,
            bindings,
            schedules: self.schedules,
            marker: PhantomData,
        };
        proof {
            assert(r@ =~= (ProgramView { bindings: r.bindings@, ..self@ }));
        }
        r
    }
}

impl<F> EgglogProgramBuilder<DefinedSorts, F, LoadedRules> {
    /// Set one schedule fragment, after the rules.
    pub fn schedules(self, schedules: EgglogSchedules) -> (r: EgglogProgramBuilder<
        DefinedSorts,
        F,
        AddedSchedules,
    >)
        requires
            self.wf(),
            schedules.wf(),
        ensures
            r@ == (ProgramView { schedules: seq![schedules@], ..self@ }),
            r.wf(),
    {
        let mut fragment: Vec<EgglogSchedules> = Vec::new();
        fragment.push(schedules);
        let r = EgglogProgramBuilder {
            sorts: self.sorts,
            facts: self.facts,
            rules: self.rules,
            bindings: self.bindings,
            schedules: fragment,
            marker: PhantomData,
        };
        proof {
            assert(r.schedules.deep_view() =~= seq![r.schedules@[0]@]);
            assert(r@ =~= (ProgramView { schedules: seq![r.schedules@[0]@], ..self@ }));
        }
        r
    }
}

impl<S, F, R> EgglogProgramBuilder<S, F, R> {
    /// Assemble the program from whatever the completed stages supplied;
    /// unset parts stay empty.
    fn assemble(self) -> (r: EgglogProgram)
        requires
            self.wf(),
        ensures
            r@ == self@,
            r.wf(),
            r.indexed(),
            r.exact(),
    {
        proof {
            lemma_sort_index_contains(self@.sorts);
            lemma_fact_index_contains(self@.facts);
            assert(view_indexed(self@));
        }
        EgglogProgram::from_parts(
            self.sorts,
            self.facts,
            self.rules,
            self.bindings,
            self.schedules,
        )
    }
}

impl<F, R> EgglogProgramBuilder<DefinedSorts, F, R> {
    /// Produce the program after only the sorts stage is required:
    /// whatever else was supplied is kept, the rest stays empty.
    pub fn definitions(self) -> (r: EgglogProgram)
        requires
            self.wf(),
        ensures
            r@ == self@,
            r.wf(),
            r.indexed(),
            r.exact(),
    {
        self.assemble()
    }
}

impl<R> EgglogProgramBuilder<DefinedSorts, BoundSymbols, R> {
    /// Produce the program once facts and bindings are supplied.
    pub fn variables(self) -> (r: EgglogProgram)
        requires
            self.wf(),
        ensures
            r@ == self@,
            r.wf(),
            r.indexed(),
            r.exact(),
    {
        self.assemble()
    }
}

impl<F> EgglogProgramBuilder<DefinedSorts, F, AddedSchedules> {
    /// Produce the program once rules and schedules are supplied.
    pub fn rewrite(self) -> (r: EgglogProgram)
        requires
            self.wf(),
        ensures
            r@ == self@,
            r.wf(),
            r.indexed(),
            r.exact(),
    {
        self.assemble()
    }
}

impl EgglogProgramBuilder<DefinedSorts, BoundSymbols, AddedSchedules> {
    /// Produce the fully populated program: every axis complete.
    pub fn program(self) -> (r: EgglogProgram)
        requires
            self.wf(),
        ensures
            r@ == self@,
            r.wf(),
            r.indexed(),
            r.exact(),
    {
        self.assemble()
    }
}

} // verus!
