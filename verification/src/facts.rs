//! The facts section: initial actions, in insertion order.
//!
//! Only let-bound actions carry a fact symbol; the section itself accepts
//! any action, and symbol extraction reports the others as unsupported.

use vstd::prelude::*;

use crate::command::{is_action_shaped, is_let_shaped, Command, CommandView};

verus! {

/// An ordered sequence of action declarations.
#[derive(Debug, PartialEq, Eq)]
pub struct EgglogFacts(Vec<Command>);

impl View for EgglogFacts {
    type V = Seq<CommandView>;

    closed spec fn view(&self) -> Seq<CommandView> {
        self.0.deep_view()
    }
}

impl EgglogFacts {
    /// Every declaration in the section is an action.
    pub open spec fn wf(&self) -> bool {
        forall|i: int| 0 <= i < self@.len() ==> is_action_shaped(#[trigger] self@[i])
    }

    /// Every declaration in the section is a let-binding, so every fact
    /// symbol can be extracted.
    pub open spec fn all_lets(&self) -> bool {
        forall|i: int| 0 <= i < self@.len() ==> is_let_shaped(#[trigger] self@[i])
    }

    /// The empty section.
    pub fn new() -> (r: Self)
        ensures
            r@ == Seq::<CommandView>::empty(),
            r.wf(),
            r.all_lets(),
    {
        let r = EgglogFacts(Vec::new());
        proof {
            assert(r@ =~= Seq::<CommandView>::empty());
        }
        r
    }

    /// Append the declarations of `fact_list`, in order.  Every
    /// declaration must be an action — the only kind this section
    /// accepts (`Command::is_action_decl` is the caller's check); only
    /// let-bound actions carry a fact symbol, which `lets_only` tests.
    pub fn add_facts(self, fact_list: Vec<Command>) -> (r: Self)
        requires
            forall|i: int|
                0 <= i < fact_list.deep_view().len() ==> is_action_shaped(
                    #[trigger] fact_list.deep_view()[i],
                ),
        ensures
            r@ == self@ + fact_list.deep_view(),
            self.wf() ==> r.wf(),
    {
        let ghost incoming = fact_list.deep_view();
        let mut cmds = self.0;
        let ghost base = cmds.deep_view();
        let mut rest = fact_list;
        cmds.append(&mut rest);
        proof {
            assert(cmds.deep_view() =~= base + incoming);
            if self.wf() {
                assert forall|j: int|
                    0 <= j < cmds.deep_view().len() implies is_action_shaped(
                    #[trigger] cmds.deep_view()[j],
                ) by {
                    if j < base.len() {
                        assert(cmds.deep_view()[j] == self@[j]);
                    } else {
                        assert(cmds.deep_view()[j] == incoming[j - base.len()]);
                    }
                }
            }
        }
        EgglogFacts(cmds)
    }

    /// True exactly when every declaration is a let-binding; the check a
    /// caller makes before extracting fact symbols.
    pub fn lets_only(&self) -> (r: bool)
        ensures
            r == self.all_lets(),
    {
        let mut i: usize = 0;
        while i < self.0.len()
            invariant
                0 <= i <= self.0.len(),
                forall|k: int| 0 <= k < i ==> is_let_shaped(#[trigger] self@[k]),
            decreases self.0.len() - i,
        {
            if !self.0[i].is_let_decl() {
                proof {
                    assert(self@[i as int] == self.0@[i as int]@);
                    assert(!self.all_lets());
                }
                return false;
            }
            i += 1;
        }
        true
    }

    /// How many declarations the section holds.
    pub fn len(&self) -> (r: usize)
        ensures
            r == self@.len(),
    {
        self.0.len()
    }

    /// The declarations, in insertion order.
    pub fn commands(&self) -> (r: &Vec<Command>)
        ensures
            r.deep_view() == self@,
    {
        &self.0
    }
}

impl Clone for EgglogFacts {
    /// The clone carries the same declarations.
    fn clone(&self) -> (r: Self)
        ensures
            r@ == self@,
    {
        let cmds = self.0.clone();
        proof {
            assert(cmds.deep_view() =~= self.0.deep_view());
        }
        EgglogFacts(cmds)
    }
}

impl Default for EgglogFacts {
    /// The default section is empty.
    fn default() -> (r: Self)
        ensures
            r@ == Seq::<CommandView>::empty(),
            r.wf(),
            r.all_lets(),
    {
        EgglogFacts::new()
    }
}

} // verus!
