//! A rules fragment: one cohesive batch of rule declarations.
//!
//! Fragments are kept distinct in a program and concatenated — never
//! deduplicated — by the merge operations.

use vstd::prelude::*;

use crate::command::{is_rule_shaped, Command, CommandView};

verus! {

/// An ordered sequence of rule declarations supplied together.
#[derive(Debug, PartialEq, Eq)]
pub struct EgglogRules(Vec<Command>);

impl View for EgglogRules {
    type V = Seq<CommandView>;

    closed spec fn view(&self) -> Seq<CommandView> {
        self.0.deep_view()
    }
}

impl DeepView for EgglogRules {
    type V = Seq<CommandView>;

    open spec fn deep_view(&self) -> Seq<CommandView> {
        self.view()
    }
}

impl EgglogRules {
    /// Every declaration in the fragment is rule-shaped.
    pub open spec fn wf(&self) -> bool {
        forall|i: int| 0 <= i < self@.len() ==> is_rule_shaped(#[trigger] self@[i])
    }

    /// The empty fragment.
    pub fn new() -> (r: Self)
        ensures
            r@ == Seq::<CommandView>::empty(),
            r.wf(),
    {
        let r = EgglogRules(Vec::new());
        proof {
            assert(r@ =~= Seq::<CommandView>::empty());
        }
        r
    }

    /// Append the declarations of `rule_list`, in order.  Every
    /// declaration must be rule-shaped — a rule, rewrite or ruleset
    /// declaration; this fragment accepts no other kind
    /// (`Command::is_rule_decl` is the caller's check).
    pub fn add_rules(self, rule_list: Vec<Command>) -> (r: Self)
        requires
            forall|i: int|
                0 <= i < rule_list.deep_view().len() ==> is_rule_shaped(
                    #[trigger] rule_list.deep_view()[i],
                ),
        ensures
            r@ == self@ + rule_list.deep_view(),
            self.wf() ==> r.wf(),
    {
        let ghost incoming = rule_list.deep_view();
        let mut cmds = self.0;
        let ghost base = cmds.deep_view();
        let mut rest = rule_list;
        cmds.append(&mut rest);
        proof {
            assert(cmds.deep_view() =~= base + incoming);
            if self.wf() {
                assert forall|j: int|
                    0 <= j < cmds.deep_view().len() implies is_rule_shaped(
                    #[trigger] cmds.deep_view()[j],
                ) by {
                    if j < base.len() {
                        assert(cmds.deep_view()[j] == self@[j]);
                    } else {
                        assert(cmds.deep_view()[j] == incoming[j - base.len()]);
                    }
                }
            }
        }
        EgglogRules(cmds)
    }

    /// How many declarations the fragment holds.
    pub fn len(&self) -> (r: usize)
        ensures
            r == self@.len(),
    {
        self.0.len()
    }

    /// The declarations, in insertion order.
    pub fn commands(&self) -> (r: &Vec<Command>)
        ensures
            r.deep_view() == self@,
    {
        &self.0
    }
}

impl Clone for EgglogRules {
    /// The clone carries the same declarations.
    fn clone(&self) -> (r: Self)
        ensures
            r@ == self@,
    {
        let cmds = self.0.clone();
        proof {
            assert(cmds.deep_view() =~= self.0.deep_view());
        }
        EgglogRules(cmds)
    }
}

impl Default for EgglogRules {
    /// The default fragment is empty.
    fn default() -> (r: Self)
        ensures
            r@ == Seq::<CommandView>::empty(),
            r.wf(),
    {
        EgglogRules::new()
    }
}

} // verus!
