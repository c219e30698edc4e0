//! A schedules fragment: one cohesive batch of schedule declarations.
//!
//! Fragments are kept distinct in a program and concatenated — never
//! deduplicated — by the merge operations.

use vstd::prelude::*;

use crate::command::{is_schedule_shaped, Command, CommandView};

verus! {

/// An ordered sequence of schedule declarations supplied together.
#[derive(Debug, PartialEq, Eq)]
pub struct EgglogSchedules(Vec<Command>);

impl View for EgglogSchedules {
    type V = Seq<CommandView>;

    closed spec fn view(&self) -> Seq<CommandView> {
        self.0.deep_view()
    }
}

impl DeepView for EgglogSchedules {
    type V = Seq<CommandView>;

    open spec fn deep_view(&self) -> Seq<CommandView> {
        self.view()
    }
}

impl EgglogSchedules {
    /// Every declaration in the fragment is schedule-shaped.
    pub open spec fn wf(&self) -> bool {
        forall|i: int| 0 <= i < self@.len() ==> is_schedule_shaped(#[trigger] self@[i])
    }

    /// The empty fragment.
    pub fn new() -> (r: Self)
        ensures
            r@ == Seq::<CommandView>::empty(),
            r.wf(),
    {
        let r = EgglogSchedules(Vec::new());
        proof {
            assert(r@ =~= Seq::<CommandView>::empty());
        }
        r
    }

    /// Append the declarations of `schedule_list`, in order.  Every
    /// declaration must be schedule-shaped — a run-schedule instruction;
    /// this fragment accepts no other kind (`Command::is_schedule_decl`
    /// is the caller's check).
    pub fn add_schedules(self, schedule_list: Vec<Command>) -> (r: Self)
        requires
            forall|i: int|
                0 <= i < schedule_list.deep_view().len() ==> is_schedule_shaped(
                    #[trigger] schedule_list.deep_view()[i],
                ),
        ensures
            r@ == self@ + schedule_list.deep_view(),
            self.wf() ==> r.wf(),
    {
        let ghost incoming = schedule_list.deep_view();
        let mut cmds = self.0;
        let ghost base = cmds.deep_view();
        let mut rest = schedule_list;
        cmds.append(&mut rest);
        proof {
            assert(cmds.deep_view() =~= base + incoming);
            if self.wf() {
                assert forall|j: int|
                    0 <= j < cmds.deep_view().len() implies is_schedule_shaped(
                    #[trigger] cmds.deep_view()[j],
                ) by {
                    if j < base.len() {
                        assert(cmds.deep_view()[j] == self@[j]);
                    } else {
                        assert(cmds.deep_view()[j] == incoming[j - base.len()]);
                    }
                }
            }
        }
        EgglogSchedules(cmds)
    }

    /// How many declarations the fragment holds.
    pub fn len(&self) -> (r: usize)
        ensures
            r == self@.len(),
    {
        self.0.len()
    }

    /// The declarations, in insertion order.
    pub fn commands(&self) -> (r: &Vec<Command>)
        ensures
            r.deep_view() == self@,
    {
        &self.0
    }
}

impl Clone for EgglogSchedules {
    /// The clone carries the same declarations.
    fn clone(&self) -> (r: Self)
        ensures
            r@ == self@,
    {
        let cmds = self.0.clone();
        proof {
            assert(cmds.deep_view() =~= self.0.deep_view());
        }
        EgglogSchedules(cmds)
    }
}

impl Default for EgglogSchedules {
    /// The default fragment is empty.
    fn default() -> (r: Self)
        ensures
            r@ == Seq::<CommandView>::empty(),
            r.wf(),
    {
        EgglogSchedules::new()
    }
}

} // verus!
