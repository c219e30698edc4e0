//! The sorts section: type, relation, function and constructor
//! declarations, in insertion order.

use vstd::prelude::*;

use crate::command::{is_sort_shaped, Command, CommandView};

verus! {

/// An ordered sequence of sort-shaped declarations.
#[derive(Debug, PartialEq, Eq)]
pub struct EgglogSorts(Vec<Command>);

impl View for EgglogSorts {
    type V = Seq<CommandView>;

    closed spec fn view(&self) -> Seq<CommandView> {
        self.0.deep_view()
    }
}

impl EgglogSorts {
    /// Every declaration in the section is sort-shaped.
    pub open spec fn wf(&self) -> bool {
        forall|i: int| 0 <= i < self@.len() ==> is_sort_shaped(#[trigger] self@[i])
    }

    /// The empty section.
    pub fn new() -> (r: Self)
        ensures
            r@ == Seq::<CommandView>::empty(),
            r.wf(),
    {
        let r = EgglogSorts(Vec::new());
        proof {
            assert(r@ =~= Seq::<CommandView>::empty());
        }
        r
    }

    /// Append the declarations of `sort_list`, in order.  Every
    /// declaration must be sort-shaped — a type, relation, function or
    /// constructor declaration; this section accepts no other kind
    /// (`Command::is_sort_decl` is the caller's check).
    pub fn add_sorts(self, sort_list: Vec<Command>) -> (r: Self)
        requires
            forall|i: int|
                0 <= i < sort_list.deep_view().len() ==> is_sort_shaped(
                    #[trigger] sort_list.deep_view()[i],
                ),
        ensures
            r@ == self@ + sort_list.deep_view(),
            self.wf() ==> r.wf(),
    {
        let ghost incoming = sort_list.deep_view();
        let mut cmds = self.0;
        let ghost base = cmds.deep_view();
        let mut rest = sort_list;
        cmds.append(&mut rest);
        proof {
            assert(cmds.deep_view() =~= base + incoming);
            if self.wf() {
                assert forall|j: int|
                    0 <= j < cmds.deep_view().len() implies is_sort_shaped(
                    #[trigger] cmds.deep_view()[j],
                ) by {
                    if j < base.len() {
                        assert(cmds.deep_view()[j] == self@[j]);
                    } else {
                        assert(cmds.deep_view()[j] == incoming[j - base.len()]);
                    }
                }
            }
        }
        EgglogSorts(cmds)
    }

    /// How many declarations the section holds.
    pub fn len(&self) -> (r: usize)
        ensures
            r == self@.len(),
    {
        self.0.len()
    }

    /// The declarations, in insertion order.
    pub fn commands(&self) -> (r: &Vec<Command>)
        ensures
            r.deep_view() == self@,
    {
        &self.0
    }
}

impl Clone for EgglogSorts {
    /// The clone carries the same declarations.
    fn clone(&self) -> (r: Self)
        ensures
            r@ == self@,
    {
        let cmds = self.0.clone();
        proof {
            assert(cmds.deep_view() =~= self.0.deep_view());
        }
        EgglogSorts(cmds)
    }
}

impl Default for EgglogSorts {
    /// The default section is empty.
    fn default() -> (r: Self)
        ensures
            r@ == Seq::<CommandView>::empty(),
            r.wf(),
    {
        EgglogSorts::new()
    }
}

} // verus!
