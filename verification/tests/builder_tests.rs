//! Staged construction: both builders, stage order, terminal operations.

use egglog_program::builder::EgglogProgramBuilder as StagedBuilder;
use egglog_program::egraph::{EgglogProgramBuilder, InitState};
use egglog_program::{Command, EgglogFacts, EgglogRules, EgglogSchedules, EgglogSorts, EgglogSymbols};

#[test]
fn it_works() {
    assert_eq!(2 + 2, 4);
}

#[test]
fn egglog_program_default() {
    let _egglog_program = egglog_program::EgglogProgram::default();
}

#[test]
fn builder_egglog_program_default() {
    let egglog_program = egglog_program::EgglogProgram::default();
    assert_eq!(0, egglog_program.sorts().1.len());
    assert_eq!(0, egglog_program.facts().1.len());
    assert_eq!(0, egglog_program.rules().len());
    assert_eq!(0, egglog_program.schedules().len());
    assert_eq!(0, egglog_program.bindings().len());
}

#[test]
fn egglog_program_method_order_all() {
    let sorts_data = EgglogSorts::default();
    let facts_data = EgglogFacts::default();
    let rules_data = EgglogRules::default();
    let schedules_data = EgglogSchedules::default();
    let symbols = EgglogSymbols::default();

    let _egglog_program = StagedBuilder::initialize()
        .sorts(sorts_data)
        .facts(facts_data)
        .rules(rules_data)
        .bindings(symbols)
        .schedules(schedules_data)
        .program();
}

#[test]
fn egglog_program_method_order_sorts_only() {
    let sorts_data = EgglogSorts::default();
    let _egglog_program = StagedBuilder::initialize().sorts(sorts_data).definitions();
}

#[test]
fn egglog_program_method_order() {
    let sorts_data = EgglogSorts::default();
    let facts_data = EgglogFacts::default();
    let rules_data = EgglogRules::default();
    let schedules_data = EgglogSchedules::default();
    let symbols = EgglogSymbols::default();

    let _egglog_program = EgglogProgramBuilder::<InitState>::new()
        .sorts(sorts_data)
        .facts(facts_data)
        .rules(rules_data)
        .schedules(schedules_data)
        .bindings(symbols)
        .program();
}

#[test]
fn builder_rules_without_facts() {
    // The rules/schedules axis advances independently of the facts axis:
    // sorts, then rules, then schedules, then the schedule terminal.
    let sorts = EgglogSorts::default().add_sorts(vec![Command::Sort {
        name: "Foo".to_string(),
        text: "(sort Foo)".to_string(),
    }]);
    let rules = EgglogRules::default().add_rules(vec![Command::Rule {
        text: "(rule () ())".to_string(),
    }]);
    let schedules = EgglogSchedules::default().add_schedules(vec![Command::RunSchedule {
        text: "(run 1)".to_string(),
    }]);

    let program = StagedBuilder::initialize()
        .sorts(sorts)
        .rules(rules)
        .schedules(schedules)
        .rewrite();
    assert_eq!(1, program.rules().len());
    assert_eq!(1, program.schedules().len());
    assert_eq!(1, program.sorts().1.len());
    assert_eq!(0, program.facts().1.len());
}

#[test]
fn builder_facts_then_bindings() {
    let sorts = EgglogSorts::default().add_sorts(vec![Command::Sort {
        name: "Foo".to_string(),
        text: "(sort Foo)".to_string(),
    }]);
    let facts = EgglogFacts::default().add_facts(vec![Command::Action {
        binding: Some("x".to_string()),
        text: "(let x 1)".to_string(),
    }]);
    let mut bindings = EgglogSymbols::new();
    bindings.insert("free".to_string());

    let program = StagedBuilder::initialize()
        .sorts(sorts)
        .facts(facts)
        .bindings(bindings)
        .variables();
    assert_eq!(1, program.facts().1.len());
    assert_eq!(1, program.facts().0.len());
    assert!(program.facts().0.contains(&"x".to_string()));
    assert_eq!(1, program.bindings().len());
    assert!(program.bindings().contains(&"free".to_string()));
    assert_eq!(0, program.rules().len());
}

#[test]
fn builder_derives_sort_index() {
    let sorts = EgglogSorts::default().add_sorts(vec![
        Command::Sort { name: "Foo".to_string(), text: "(sort Foo)".to_string() },
        Command::Datatype {
            name: "Math".to_string(),
            variants: vec!["Num".to_string(), "Add".to_string()],
            text: "(datatype Math (Num i64) (Add Math Math))".to_string(),
        },
    ]);
    let program = StagedBuilder::initialize().sorts(sorts).definitions();
    let index = &program.sorts().0;
    assert_eq!(4, index.len());
    assert!(index.contains(&"Foo".to_string()));
    assert!(index.contains(&"Math".to_string()));
    assert!(index.contains(&"Num".to_string()));
    assert!(index.contains(&"Add".to_string()));
}
