//! Sections and symbol extraction: kind filtering, fact symbols, symbol
//! sets.

use egglog_program::{
    get_fact_symbol, get_sort_symbol, Command, EgglogError, EgglogFacts, EgglogSorts,
    EgglogSymbols,
};

fn sort_decl(name: &str) -> Command {
    Command::Sort { name: name.to_string(), text: format!("(sort {})", name) }
}

fn let_fact(name: &str, value: i64) -> Command {
    Command::Action { binding: Some(name.to_string()), text: format!("(let {} {})", name, value) }
}

#[test]
fn create_egglog_sorts_from_cmd() {
    let sort1 = Command::Sort { name: "sort1".to_string(), text: "(sort sort1)".to_string() };
    let datatype1 = Command::Datatype {
        name: "datatype1".to_string(),
        variants: vec![],
        text: "(datatype datatype1)".to_string(),
    };
    let relation1 = Command::Relation {
        name: "relation1".to_string(),
        text: "(relation relation1 ())".to_string(),
    };
    let function1 = Command::Function {
        name: "func1".to_string(),
        text: "(function func1 () func1_out)".to_string(),
    };
    let egglog_sorts = EgglogSorts::default().add_sorts(vec![sort1, datatype1, relation1, function1]);
    assert_eq!(
        4,
        egglog_sorts.len(),
        "There should be 4 commands present, one for each declaration."
    );
}

#[test]
fn create_egglog_facts_from_cmd() {
    let let_stmt1 = let_fact("var1", 0);
    let egglog_sorts = EgglogFacts::default().add_facts(vec![let_stmt1]);
    assert_eq!(
        1,
        egglog_sorts.len(),
        "There should be 1 commands present, one for each action stmt."
    );
}

#[test]
fn sorts_section_appends_in_order() {
    let section = EgglogSorts::default().add_sorts(vec![sort_decl("a")]).add_sorts(vec![
        sort_decl("b"),
        sort_decl("c"),
    ]);
    assert_eq!(3, section.len());
    assert!(matches!(&section.commands()[0], Command::Sort { name, .. } if name == "a"));
    assert!(matches!(&section.commands()[2], Command::Sort { name, .. } if name == "c"));
}

#[test]
fn facts_section_keeps_unbound_actions() {
    // Any action enters the facts section; only let-bindings carry a
    // fact symbol, which `lets_only` reports.
    let section = EgglogFacts::default().add_facts(vec![
        let_fact("x", 1),
        Command::Action { binding: None, text: "(union a b)".to_string() },
    ]);
    assert_eq!(2, section.len());
    assert!(!section.lets_only());
    let lets = EgglogFacts::default().add_facts(vec![let_fact("x", 1), let_fact("y", 2)]);
    assert!(lets.lets_only());
}

#[test]
fn section_shape_guards() {
    // The checks a caller makes before handing a declaration to a
    // section: each section accepts exactly one kind.
    let sort = sort_decl("a");
    let fact = let_fact("x", 1);
    let rule = Command::Rule { text: "(rule () ())".to_string() };
    let ruleset = Command::AddRuleset { text: "(add-ruleset rs)".to_string() };
    let rewrite = Command::Rewrite { text: "(rewrite a b)".to_string() };
    let schedule = Command::RunSchedule { text: "(run 1)".to_string() };
    let other = Command::Other { text: "(check)".to_string() };

    assert!(sort.is_sort_decl());
    assert!(!fact.is_sort_decl());
    assert!(!rule.is_sort_decl());
    assert!(!other.is_sort_decl());

    assert!(fact.is_action_decl());
    assert!(fact.is_let_decl());
    assert!(!sort.is_action_decl());
    assert!(!rule.is_action_decl());

    assert!(rule.is_rule_decl());
    assert!(ruleset.is_rule_decl());
    assert!(rewrite.is_rule_decl());
    assert!(!schedule.is_rule_decl());
    assert!(!sort.is_rule_decl());

    assert!(schedule.is_schedule_decl());
    assert!(!rule.is_schedule_decl());
    assert!(!other.is_schedule_decl());
}

#[test]
fn sort_symbols_of_datatype() {
    let datatype = Command::Datatype {
        name: "Math".to_string(),
        variants: vec!["Num".to_string(), "Var".to_string()],
        text: "(datatype Math (Num i64) (Var String))".to_string(),
    };
    let syms = get_sort_symbol(&datatype).unwrap();
    assert_eq!(vec!["Math".to_string(), "Num".to_string(), "Var".to_string()], syms);

    let plain = sort_decl("Foo");
    assert_eq!(vec!["Foo".to_string()], get_sort_symbol(&plain).unwrap());
}

#[test]
fn sort_symbols_reject_other_kinds() {
    let fact = let_fact("x", 1);
    assert_eq!(Err(EgglogError::UnsupportedDeclarationKind), get_sort_symbol(&fact));
}

#[test]
fn fact_symbol_of_let() {
    let fact = let_fact("var1", 3);
    assert_eq!("var1".to_string(), get_fact_symbol(&fact).unwrap());
}

#[test]
fn fact_symbol_rejects_other_kinds() {
    let unbound = Command::Action { binding: None, text: "(union a b)".to_string() };
    assert_eq!(Err(EgglogError::UnsupportedDeclarationKind), get_fact_symbol(&unbound));
    let sort = sort_decl("Foo");
    assert_eq!(Err(EgglogError::UnsupportedDeclarationKind), get_fact_symbol(&sort));
}

#[test]
fn symbols_deduplicate_and_keep_order() {
    let mut syms = EgglogSymbols::new();
    syms.insert("b".to_string());
    syms.insert("a".to_string());
    syms.insert("b".to_string());
    assert_eq!(2, syms.len());
    assert!(syms.contains(&"a".to_string()));
    assert!(syms.contains(&"b".to_string()));
    assert!(!syms.contains(&"c".to_string()));
    assert_eq!(&vec!["b".to_string(), "a".to_string()], syms.as_vec());
}

#[test]
fn symbols_union_keeps_left_order() {
    let mut left = EgglogSymbols::new();
    left.insert("a".to_string());
    left.insert("b".to_string());
    let mut right = EgglogSymbols::new();
    right.insert("b".to_string());
    right.insert("c".to_string());
    let both = left.union(&right);
    assert_eq!(3, both.len());
    assert_eq!(&vec!["a".to_string(), "b".to_string(), "c".to_string()], both.as_vec());
}
