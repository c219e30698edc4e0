//! Declarations: the units a program is assembled from.
//!
//! A `Command` is one unit of engine program text, tagged with the structure
//! the assembly logic reads: its kind and the symbols it declares.  The
//! spec-level shape is `CommandView`, with strings as character sequences.

use vstd::prelude::*;

verus! {

/// Spec-level shape of a declaration.
#[verifier::ext_equal]
pub enum CommandView {
    Sort { name: Seq<char>, text: Seq<char> },
    Datatype { name: Seq<char>, variants: Seq<Seq<char>>, text: Seq<char> },
    Relation { name: Seq<char>, text: Seq<char> },
    Function { name: Seq<char>, text: Seq<char> },
    Constructor { name: Seq<char>, text: Seq<char> },
    Action { binding: Option<Seq<char>>, text: Seq<char> },
    AddRuleset { text: Seq<char> },
    Rule { text: Seq<char> },
    Rewrite { text: Seq<char> },
    RunSchedule { text: Seq<char> },
    Other { text: Seq<char> },
}

/// One unit of engine program text.
///
/// `text` carries the declaration itself; the remaining fields expose the
/// structure that sectioning, symbol extraction and deduplication read.
/// An `Action` with a `binding` is a let-binding of that symbol (a fact);
/// one without is any other action.  `Other` covers command kinds that no
/// section accepts.
#[derive(Debug, PartialEq, Eq)]
pub enum Command {
    Sort { name: String, text: String },
    Datatype { name: String, variants: Vec<String>, text: String },
    Relation { name: String, text: String },
    Function { name: String, text: String },
    Constructor { name: String, text: String },
    Action { binding: Option<String>, text: String },
    AddRuleset { text: String },
    Rule { text: String },
    Rewrite { text: String },
    RunSchedule { text: String },
    Other { text: String },
}

impl View for Command {
    type V = CommandView;

    open spec fn view(&self) -> CommandView {
        match self {
            Command::Sort { name, text } => CommandView::Sort { name: name@, text: text@ },
            Command::Datatype { name, variants, text } => CommandView::Datatype {
                name: name@,
                variants: variants.deep_view(),
                text: text@,
            },
            Command::Relation { name, text } => CommandView::Relation { name: name@, text: text@ },
            Command::Function { name, text } => CommandView::Function { name: name@, text: text@ },
            Command::Constructor { name, text } => CommandView::Constructor {
                name: name@,
                text: text@,
            },
            Command::Action { binding, text } => CommandView::Action {
                binding: binding.deep_view(),
                text: text@,
            },
            Command::AddRuleset { text } => CommandView::AddRuleset { text: text@ },
            Command::Rule { text } => CommandView::Rule { text: text@ },
            Command::Rewrite { text } => CommandView::Rewrite { text: text@ },
            Command::RunSchedule { text } => CommandView::RunSchedule { text: text@ },
            Command::Other { text } => CommandView::Other { text: text@ },
        }
    }
}

impl DeepView for Command {
    type V = CommandView;

    open spec fn deep_view(&self) -> CommandView {
        self.view()
    }
}

/// A declaration accepted by the sorts section: a type, relation, function
/// or constructor declaration.
pub open spec fn is_sort_shaped(c: CommandView) -> bool {
    ||| c is Sort
    ||| c is Datatype
    ||| c is Relation
    ||| c is Function
    ||| c is Constructor
}

/// A declaration accepted by the facts section: any action.
pub open spec fn is_action_shaped(c: CommandView) -> bool {
    c is Action
}

/// An action that binds a symbol: the only shape a fact symbol can be
/// extracted from.
pub open spec fn is_let_shaped(c: CommandView) -> bool {
    c matches CommandView::Action { binding: Some(_), .. }
}

/// A declaration accepted by the rules section.
pub open spec fn is_rule_shaped(c: CommandView) -> bool {
    ||| c is AddRuleset
    ||| c is Rule
    ||| c is Rewrite
}

/// A declaration accepted by the schedules section.
pub open spec fn is_schedule_shaped(c: CommandView) -> bool {
    c is RunSchedule
}

/// The symbols a sort-shaped declaration declares: its name, followed by
/// every variant name for a multi-constructor datatype.  Empty for other
/// shapes.
pub open spec fn sort_symbols_view(c: CommandView) -> Seq<Seq<char>> {
    match c {
        CommandView::Sort { name, .. } => seq![name],
        CommandView::Datatype { name, variants, .. } => seq![name] + variants,
        CommandView::Relation { name, .. } => seq![name],
        CommandView::Function { name, .. } => seq![name],
        CommandView::Constructor { name, .. } => seq![name],
        _ => Seq::empty(),
    }
}

/// The primary symbol of a sort-shaped declaration: the first declared
/// symbol.  Deduplication during merge checks this symbol only, never the
/// variant names.
pub open spec fn primary_sort_symbol(c: CommandView) -> Seq<char> {
    sort_symbols_view(c)[0]
}

/// The symbol a let-shaped action binds.  Empty for other shapes.
pub open spec fn fact_symbol_view(c: CommandView) -> Seq<char> {
    match c {
        CommandView::Action { binding: Some(s), .. } => s,
        _ => Seq::empty(),
    }
}

/// A declaration did not match the shape required by the section or
/// extraction it was passed to.
#[derive(Debug, Clone, Copy, PartialEq, Eq, Structural)]
pub enum EgglogError {
    UnsupportedDeclarationKind,
}

impl Command {
    /// True exactly when the sorts section accepts this declaration.
    pub fn is_sort_decl(&self) -> (r: bool)
        ensures
            r == is_sort_shaped(self@),
    {
        matches!(
            self,
            Command::Sort { .. } | Command::Datatype { .. } | Command::Relation { .. }
                | Command::Function { .. } | Command::Constructor { .. }
        )
    }

    /// True exactly when the facts section accepts this declaration.
    pub fn is_action_decl(&self) -> (r: bool)
        ensures
            r == is_action_shaped(self@),
    {
        matches!(self, Command::Action { .. })
    }

    /// True exactly when this declaration is a let-binding of a symbol.
    pub fn is_let_decl(&self) -> (r: bool)
        ensures
            r == is_let_shaped(self@),
    {
        matches!(self, Command::Action { binding: Some(_), .. })
    }

    /// True exactly when the rules section accepts this declaration.
    pub fn is_rule_decl(&self) -> (r: bool)
        ensures
            r == is_rule_shaped(self@),
    {
        matches!(self, Command::AddRuleset { .. } | Command::Rule { .. } | Command::Rewrite { .. })
    }

    /// True exactly when the schedules section accepts this declaration.
    pub fn is_schedule_decl(&self) -> (r: bool)
        ensures
            r == is_schedule_shaped(self@),
    {
        matches!(self, Command::RunSchedule { .. })
    }
}

impl Clone for Command {
    fn clone(&self) -> (r: Self)
        ensures
            r@ == self@,
    {
        match self {
            Command::Sort { name, text } => Command::Sort {
                name: name.clone(),
                text: text.clone(),
            },
            Command::Datatype { name, variants, text } => {
                let vs = variants.clone();
                proof {
                    assert(vs.deep_view() =~= variants.deep_view());
                }
                Command::Datatype { name: name.clone(), variants: vs, text: text.clone() }
            },
            Command::Relation { name, text } => Command::Relation {
                name: name.clone(),
                text: text.clone(),
            },
            Command::Function { name, text } => Command::Function {
                name: name.clone(),
                text: text.clone(),
            },
            Command::Constructor { name, text } => Command::Constructor {
                name: name.clone(),
                text: text.clone(),
            },
            Command::Action { binding, text } => {
                let b = match binding {
                    Some(s) => Some(s.clone()),
                    None => None,
                };
                Command::Action { binding: b, text: text.clone() }
            },
            Command::AddRuleset { text } => Command::AddRuleset { text: text.clone() },
            Command::Rule { text } => Command::Rule { text: text.clone() },
            Command::Rewrite { text } => Command::Rewrite { text: text.clone() },
            Command::RunSchedule { text } => Command::RunSchedule { text: text.clone() },
            Command::Other { text } => Command::Other { text: text.clone() },
        }
    }
}

/// The symbols a sort-shaped declaration declares, in order: its name, then
/// every variant name.  Any other shape is `UnsupportedDeclarationKind`.
pub fn get_sort_symbol(command: &Command) -> (r: Result<Vec<String>, EgglogError>)
    ensures
        match r {
            Ok(syms) => {
                &&& is_sort_shaped(command@)
                &&& syms.deep_view() == sort_symbols_view(command@)
                &&& syms.len() >= 1
            },
            Err(e) => !is_sort_shaped(command@) && e == EgglogError::UnsupportedDeclarationKind,
        },
{
    match command {
        Command::Sort { name, .. } => {
            let syms = vec![name.clone()];
            proof {
                assert(syms.deep_view() =~= sort_symbols_view(command@));
            }
            Ok(syms)
        },
        Command::Datatype { name, variants, .. } => {
            let mut syms: Vec<String> = Vec::new();
            syms.push(name.clone());
            let mut i: usize = 0;
            while i < variants.len()
                invariant
                    0 <= i <= variants.len(),
                    syms.deep_view() =~= seq![name@] + variants.deep_view().take(i as int),
                decreases variants.len() - i,
            {
                let ghost prev = syms.deep_view();
                syms.push(variants[i].clone());
                proof {
                    assert(syms.deep_view() =~= prev.push(variants@[i as int]@));
                    assert(variants.deep_view().take(i + 1 as int) =~= variants.deep_view().take(
                        i as int,
                    ).push(variants@[i as int]@));
                    assert(syms.deep_view() =~= seq![name@] + variants.deep_view().take(
                        i + 1 as int,
                    ));
                }
                i += 1;
            }
            proof {
                assert(variants.deep_view().take(variants.len() as int) =~= variants.deep_view());
                assert(syms.deep_view() =~= sort_symbols_view(command@));
            }
            Ok(syms)
        },
        Command::Relation { name, .. } => {
            let syms = vec![name.clone()];
            proof {
                assert(syms.deep_view() =~= sort_symbols_view(command@));
            }
            Ok(syms)
        },
        Command::Function { name, .. } => {
            let syms = vec![name.clone()];
            proof {
                assert(syms.deep_view() =~= sort_symbols_view(command@));
            }
            Ok(syms)
        },
        Command::Constructor { name, .. } => {
            let syms = vec![name.clone()];
            proof {
                assert(syms.deep_view() =~= sort_symbols_view(command@));
            }
            Ok(syms)
        },
        _ => Err(EgglogError::UnsupportedDeclarationKind),
    }
}

/// The symbol a fact declaration binds.  Any declaration that is not a
/// let-binding is `UnsupportedDeclarationKind`.
pub fn get_fact_symbol(command: &Command) -> (r: Result<String, EgglogError>)
    ensures
        match r {
            Ok(s) => is_let_shaped(command@) && s@ == fact_symbol_view(command@),
            Err(e) => !is_let_shaped(command@) && e == EgglogError::UnsupportedDeclarationKind,
        },
{
    match command {
        Command::Action { binding: Some(s), .. } => Ok(s.clone()),
        _ => Err(EgglogError::UnsupportedDeclarationKind),
    }
}

} // verus!
