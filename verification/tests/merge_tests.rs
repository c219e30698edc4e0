//! The merge algebra and the flattener: identity, commutation over
//! disjoint programs, associativity, deduplication, monotonicity and
//! flatten ordering, on concrete programs.

use egglog_program::builder::EgglogProgramBuilder;
use egglog_program::{
    Command, EgglogFacts, EgglogProgram, EgglogRules, EgglogSchedules, EgglogSorts, EgglogSymbols,
};

fn sort_decl(name: &str) -> Command {
    Command::Sort { name: name.to_string(), text: format!("(sort {})", name) }
}

fn datatype_decl(name: &str, variants: &[&str]) -> Command {
    Command::Datatype {
        name: name.to_string(),
        variants: variants.iter().map(|v| v.to_string()).collect(),
        text: format!("(datatype {})", name),
    }
}

fn let_fact(name: &str, value: i64) -> Command {
    Command::Action { binding: Some(name.to_string()), text: format!("(let {} {})", name, value) }
}

fn symbols(names: &[&str]) -> EgglogSymbols {
    let mut syms = EgglogSymbols::new();
    for name in names {
        syms.insert(name.to_string());
    }
    syms
}

fn program(
    sorts: Vec<Command>,
    facts: Vec<Command>,
    rules: Vec<Command>,
    schedules: Vec<Command>,
    bindings: &[&str],
) -> EgglogProgram {
    EgglogProgramBuilder::initialize()
        .sorts(EgglogSorts::default().add_sorts(sorts))
        .facts(EgglogFacts::default().add_facts(facts))
        .rules(EgglogRules::default().add_rules(rules))
        .bindings(symbols(bindings))
        .schedules(EgglogSchedules::default().add_schedules(schedules))
        .program()
}

#[test]
fn combine_identity_both_sides() {
    let p = program(
        vec![sort_decl("Foo"), datatype_decl("Math", &["Num"])],
        vec![let_fact("x", 1)],
        vec![Command::Rule { text: "(rule () ())".to_string() }],
        vec![Command::RunSchedule { text: "(run 1)".to_string() }],
        &["free"],
    );
    let empty = EgglogProgram::empty();
    assert_eq!(p, p.combine(&empty));
    assert_eq!(p, empty.combine(&p));
    assert_eq!(p, p.clone().add(EgglogProgram::empty()));
    assert_eq!(p, EgglogProgram::empty().add(p.clone()));
}

#[test]
fn combine_disjoint_commutes_up_to_order() {
    let a = program(vec![sort_decl("A")], vec![let_fact("x", 1)], vec![], vec![], &["s"]);
    let b = program(vec![sort_decl("B")], vec![let_fact("y", 2)], vec![], vec![], &["t"]);
    let ab = a.combine(&b);
    let ba = b.combine(&a);
    assert_eq!(ab.sorts().1.len(), ba.sorts().1.len());
    assert_eq!(ab.facts().1.len(), ba.facts().1.len());
    assert_eq!(ab.sorts().0.len(), ba.sorts().0.len());
    for sym in ["A", "B"] {
        assert!(ab.sorts().0.contains(&sym.to_string()));
        assert!(ba.sorts().0.contains(&sym.to_string()));
    }
    for sym in ["x", "y"] {
        assert!(ab.facts().0.contains(&sym.to_string()));
        assert!(ba.facts().0.contains(&sym.to_string()));
    }
    for sym in ["s", "t"] {
        assert!(ab.bindings().contains(&sym.to_string()));
        assert!(ba.bindings().contains(&sym.to_string()));
    }
}

#[test]
fn combine_disjoint_associative() {
    let a = program(vec![sort_decl("A")], vec![let_fact("x", 1)], vec![], vec![], &["s"]);
    let b = program(
        vec![datatype_decl("B", &["MkB"])],
        vec![let_fact("y", 2)],
        vec![Command::Rewrite { text: "(rewrite a b)".to_string() }],
        vec![],
        &["t"],
    );
    let c = program(
        vec![sort_decl("C")],
        vec![let_fact("z", 9)],
        vec![],
        vec![Command::RunSchedule { text: "(run 1)".to_string() }],
        &["s", "u"],
    );
    let left_first = a.combine(&b).combine(&c);
    let right_first = a.combine(&b.combine(&c));
    assert_eq!(left_first, right_first);
}

#[test]
fn combine_deduplicates_by_primary_symbol() {
    // The known first-symbol-only matching: the right operand's `Foo`
    // datatype is dropped whole, even though its variants differ, and it
    // contributes nothing to the merged index — `MkB` is not indexed.
    let a = program(vec![datatype_decl("Foo", &["MkA"])], vec![], vec![], vec![], &[]);
    let b = program(
        vec![datatype_decl("Foo", &["MkB"]), sort_decl("Bar")],
        vec![],
        vec![],
        vec![],
        &[],
    );
    let ab = a.combine(&b);
    assert_eq!(2, ab.sorts().1.len());
    let kept: Vec<&Command> = ab.sorts().1.commands().iter().collect();
    assert!(matches!(kept[0], Command::Datatype { name, variants, .. }
        if name == "Foo" && variants == &vec!["MkA".to_string()]));
    assert!(matches!(kept[1], Command::Sort { name, .. } if name == "Bar"));
    // The index holds A's symbols plus the admitted `Bar` only, strictly
    // fewer than the two indices summed: 3 < 2 + 3.
    assert_eq!(3, ab.sorts().0.len());
    assert!(ab.sorts().0.contains(&"Foo".to_string()));
    assert!(ab.sorts().0.contains(&"MkA".to_string()));
    assert!(ab.sorts().0.contains(&"Bar".to_string()));
    assert!(!ab.sorts().0.contains(&"MkB".to_string()));
}

#[test]
fn combine_deduplicates_facts_by_bound_symbol() {
    let a = program(vec![sort_decl("S")], vec![let_fact("x", 1)], vec![], vec![], &[]);
    let b = program(
        vec![sort_decl("T")],
        vec![let_fact("x", 7), let_fact("y", 2)],
        vec![],
        vec![],
        &[],
    );
    let ab = a.combine(&b);
    assert_eq!(2, ab.facts().1.len());
    let kept: Vec<&Command> = ab.facts().1.commands().iter().collect();
    assert!(matches!(kept[0], Command::Action { binding: Some(n), text } if n == "x" && text == "(let x 1)"));
    assert!(matches!(kept[1], Command::Action { binding: Some(n), .. } if n == "y"));
}

#[test]
fn combine_never_removes_left_declarations() {
    let a = program(
        vec![sort_decl("A"), sort_decl("B")],
        vec![let_fact("x", 1)],
        vec![Command::Rule { text: "(rule () ())".to_string() }],
        vec![],
        &["s"],
    );
    let b = program(
        vec![sort_decl("A"), sort_decl("B"), sort_decl("C")],
        vec![let_fact("x", 2)],
        vec![],
        vec![],
        &[],
    );
    let ab = a.combine(&b);
    assert!(ab.sorts().1.len() >= a.sorts().1.len());
    assert!(ab.facts().1.len() >= a.facts().1.len());
    // The left operand's declarations stay, in place.
    for (i, cmd) in a.sorts().1.commands().iter().enumerate() {
        assert_eq!(cmd, &ab.sorts().1.commands()[i]);
    }
    assert_eq!(a.facts().1.commands()[0], ab.facts().1.commands()[0]);
}

#[test]
fn add_matches_combine() {
    let a = program(
        vec![datatype_decl("Foo", &["MkA"]), sort_decl("S")],
        vec![let_fact("x", 1)],
        vec![Command::Rewrite { text: "(rewrite a b)".to_string() }],
        vec![Command::RunSchedule { text: "(run 1)".to_string() }],
        &["s"],
    );
    let b = program(
        vec![datatype_decl("Foo", &["MkB"]), sort_decl("T")],
        vec![let_fact("x", 2), let_fact("y", 3)],
        vec![Command::Rule { text: "(rule () ())".to_string() }],
        vec![Command::RunSchedule { text: "(run 2)".to_string() }],
        &["t"],
    );
    let combined = a.combine(&b);
    let added = a.add(b);
    assert_eq!(combined, added);
}

#[test]
fn combine_dominated_appends_fragments() {
    // Every right-operand sort is a duplicate and the right operand has
    // no facts: the sections and the index stay exactly the left
    // operand's, while the rule and schedule fragments — one each,
    // though empty — are still appended as fragments.
    let a = program(
        vec![datatype_decl("Foo", &["MkA"]), sort_decl("Bar")],
        vec![let_fact("x", 1)],
        vec![Command::Rule { text: "(rule () ())".to_string() }],
        vec![Command::RunSchedule { text: "(run 1)".to_string() }],
        &["s"],
    );
    let b = program(
        vec![datatype_decl("Foo", &["MkA"]), sort_decl("Bar")],
        vec![],
        vec![],
        vec![],
        &["t"],
    );
    let ab = a.combine(&b);
    assert_eq!(2, ab.sorts().1.len());
    assert_eq!(3, ab.sorts().0.len());
    assert_eq!(1, ab.facts().1.len());
    assert_eq!(2, ab.rules().len());
    assert_eq!(2, ab.schedules().len());
    assert_eq!(a.sorts().1, ab.sorts().1);
    assert_eq!(a.sorts().0, ab.sorts().0);
}

#[test]
fn flatten_orders_sections_and_excludes_bindings() {
    let p = program(
        vec![datatype_decl("Math", &["Num"]), sort_decl("S")],
        vec![let_fact("x", 1)],
        vec![
            Command::AddRuleset { text: "(add-ruleset rs)".to_string() },
            Command::Rewrite { text: "(rewrite a b)".to_string() },
        ],
        vec![Command::RunSchedule { text: "(run 1)".to_string() }],
        &["hidden"],
    );
    let cmds = p.flatten();
    assert_eq!(6, cmds.len());
    assert!(matches!(cmds[0], Command::Datatype { .. }));
    assert!(matches!(cmds[1], Command::Sort { .. }));
    assert!(matches!(cmds[2], Command::Action { .. }));
    assert!(matches!(cmds[3], Command::AddRuleset { .. }));
    assert!(matches!(cmds[4], Command::Rewrite { .. }));
    assert!(matches!(cmds[5], Command::RunSchedule { .. }));
}

#[test]
fn flatten_concatenates_fragments_in_order() {
    let a = program(
        vec![sort_decl("A")],
        vec![],
        vec![Command::Rule { text: "(rule (a) ())".to_string() }],
        vec![Command::RunSchedule { text: "(run 1)".to_string() }],
        &[],
    );
    let b = program(
        vec![sort_decl("B")],
        vec![],
        vec![Command::Rule { text: "(rule (b) ())".to_string() }],
        vec![Command::RunSchedule { text: "(run 2)".to_string() }],
        &[],
    );
    let ab = a.combine(&b);
    assert_eq!(2, ab.rules().len());
    assert_eq!(2, ab.schedules().len());
    let cmds = ab.flatten();
    assert_eq!(6, cmds.len());
    assert!(matches!(&cmds[2], Command::Rule { text } if text == "(rule (a) ())"));
    assert!(matches!(&cmds[3], Command::Rule { text } if text == "(rule (b) ())"));
    assert!(matches!(&cmds[4], Command::RunSchedule { text } if text == "(run 1)"));
    assert!(matches!(&cmds[5], Command::RunSchedule { text } if text == "(run 2)"));
}

#[test]
fn combine_concrete_scenario() {
    // Program A: one sort `Foo`, one fact `x = 1`.  Program B: a `Foo`
    // declaration of a different internal structure, and a sort `Bar`.
    // The merge keeps A's `Foo`, admits `Bar`, and indexes both symbols.
    let a = program(
        vec![Command::Sort { name: "Foo".to_string(), text: "(sort Foo)".to_string() }],
        vec![let_fact("x", 1)],
        vec![],
        vec![],
        &[],
    );
    let b = program(
        vec![
            Command::Sort { name: "Foo".to_string(), text: "(sort Foo (Vec i64))".to_string() },
            sort_decl("Bar"),
        ],
        vec![],
        vec![],
        vec![],
        &[],
    );
    let ab = a.combine(&b);
    assert_eq!(2, ab.sorts().1.len());
    let kept: Vec<&Command> = ab.sorts().1.commands().iter().collect();
    assert!(matches!(kept[0], Command::Sort { name, text } if name == "Foo" && text == "(sort Foo)"));
    assert!(matches!(kept[1], Command::Sort { name, .. } if name == "Bar"));
    assert_eq!(2, ab.sorts().0.len());
    assert!(ab.sorts().0.contains(&"Foo".to_string()));
    assert!(ab.sorts().0.contains(&"Bar".to_string()));
}
