//! Assembly of programs for an equality-saturation engine.
//!
//! A program is a collection of declarations — sorts, facts, rules and
//! schedules — together with a set of bound symbols.  Declarations are
//! gathered into kind-restricted sections, staged in a fixed order by a
//! typestate builder, merged with symbol-based deduplication, and finally
//! flattened into one ordered command sequence for the engine.

pub mod builder;
pub mod command;
pub mod egraph;
pub mod facts;
pub mod laws;
pub mod program;
pub mod rules;
pub mod schedule;
pub mod sorts;
pub mod symbols;

pub use command::{get_fact_symbol, get_sort_symbol, Command, CommandView, EgglogError};
pub use egraph::{
    BindingsState, EgglogProgramBuilder, FactsState, InitState, RulesState, SchedulesState,
    SortsState,
};
pub use facts::EgglogFacts;
pub use program::{
    EgglogCommandList, EgglogProgram, EgglogProgramFacts, EgglogProgramSorts, EgglogRuleList,
    EgglogScheduleList, ProgramView,
};
pub use rules::EgglogRules;
pub use schedule::EgglogSchedules;
pub use sorts::EgglogSorts;
pub use symbols::EgglogSymbols;
