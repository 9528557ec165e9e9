use vstd::prelude::*;

verus! {

/// One task record: the unit entity the store manages.
///
/// The identifier is carried as the 128-bit value of a UUID; parsing and
/// generating the textual UUID form is the id layer's concern.
pub struct Task {
    pub description: String,
    pub complete: bool,
    pub id: u128,
}

/// The mathematical value of a task: its description as a sequence of
/// characters, its completion flag, and its identifier.
pub ghost struct TaskView {
    pub description: Seq<char>,
    pub complete: bool,
    pub id: u128,
}

impl View for Task {
    type V = TaskView;

    open spec fn view(&self) -> TaskView {
        TaskView { description: self.description@, complete: self.complete, id: self.id }
    }
}

impl Clone for Task {
    fn clone(&self) -> (res: Self)
        ensures
            res == *self,
    {
        Task { description: self.description.clone(), complete: self.complete, id: self.id }
    }
}

} // verus!
