use vstd::prelude::*;

verus! {

/// The mathematical value of a task: its identifier and its title text.
pub struct TaskModel {
    pub id: nat,
    pub title: Seq<char>,
}

/// A task: the unit entity of the repository. The identifier is unique and
/// assigned by the repository; the title is opaque text with no validation.
pub struct Task {
    pub id: usize,
    pub title: String,
}

impl View for Task {
    type V = TaskModel;

    open spec fn view(&self) -> TaskModel {
        TaskModel { id: self.id as nat, title: self.title@ }
    }
}

impl Clone for Task {
    fn clone(&self) -> (r: Self)
        ensures
            r@ == self@,
    {
        Task { id: self.id, title: self.title.clone() }
    }
}

} // verus!
