use vstd::prelude::*;

use crate::ids;
use crate::ids::parsed_id_of;
use crate::task::Task;
use crate::task::TaskView;

verus! {

/// The views of a sequence of task records, in order.
pub open spec fn task_views(ts: Seq<Task>) -> Seq<TaskView> {
    ts.map_values(|t: Task| t@)
}

/// Every identifier occurs at most once in the sequence.
pub open spec fn unique_ids(s: Seq<TaskView>) -> bool {
    forall|i: int, j: int|
        0 <= i < s.len() && 0 <= j < s.len() && i != j ==> s[i].id != s[j].id
}

/// Some task in the sequence has the given identifier.
pub open spec fn contains_id(s: Seq<TaskView>, id: u128) -> bool {
    exists|i: int| 0 <= i < s.len() && s[i].id == id
}

/// The sequence with every task whose identifier equals `id` removed, the
/// rest kept in order.
pub open spec fn without_id(s: Seq<TaskView>, id: u128) -> Seq<TaskView>
    decreases s.len(),
{
    if s.len() == 0 {
        Seq::empty()
    } else if s.last().id == id {
        without_id(s.drop_last(), id)
    } else {
        without_id(s.drop_last(), id).push(s.last())
    }
}

/// The sequence with every task whose identifier equals `id` replaced by
/// `r` — all of its fields, the identifier itself included.
pub open spec fn with_replaced(s: Seq<TaskView>, id: u128, r: TaskView) -> Seq<TaskView> {
    Seq::new(s.len(), |i: int| if s[i].id == id { r } else { s[i] })
}

/// The task a creation appends for a given description and identifier:
/// the completion flag starts out false.
pub open spec fn new_task_view(description: Seq<char>, id: u128) -> TaskView {
    TaskView { description: description, complete: false, id: id }
}

proof fn lemma_task_views_push(ts: Seq<Task>, t: Task)
    ensures
        task_views(ts.push(t)) == task_views(ts).push(t@),
{
    assert(task_views(ts.push(t)) =~= task_views(ts).push(t@));
}

proof fn lemma_without_id_take_step(s: Seq<TaskView>, id: u128, i: int)
    requires
        0 <= i < s.len(),
    ensures
        s[i].id == id ==> without_id(s.take(i + 1), id) == without_id(s.take(i), id),
        s[i].id != id ==> without_id(s.take(i + 1), id) == without_id(s.take(i), id).push(s[i]),
{
    assert(s.take(i + 1).drop_last() =~= s.take(i));
    assert(s.take(i + 1).last() == s[i]);
}

/// The store of tasks: the single authoritative, insertion-ordered
/// collection, viewed as the sequence of its tasks' values.
pub struct TaskStore {
    tasks: Vec<Task>,
}

impl View for TaskStore {
    type V = Seq<TaskView>;

    closed spec fn view(&self) -> Seq<TaskView> {
        task_views(self.tasks@)
    }
}

impl TaskStore {
    /// A new store holds no tasks.
    pub fn new() -> (s: Self)
        ensures
            s@ == Seq::<TaskView>::empty(),
    {
        let s = TaskStore { tasks: Vec::new() };
        proof {
            assert(s@ =~= Seq::<TaskView>::empty());
        }
        s
    }

    /// How many tasks the store holds.
    pub fn len(&self) -> (n: usize)
        ensures
            n == self@.len(),
    {
        self.tasks.len()
    }

    /// A snapshot of the current tasks, in insertion order.
    pub fn list(&self) -> (r: Vec<Task>)
        ensures
            r@.len() == self@.len(),
            forall|i: int| 0 <= i < r@.len() ==> (#[trigger] r@[i])@ == self@[i],
    {
        let mut out: Vec<Task> = Vec::new();
        let mut i: usize = 0;
        while i < self.tasks.len()
            invariant
                i <= self.tasks.len(),
                out@.len() == i,
                forall|j: int| 0 <= j < i ==> (#[trigger] out@[j])@ == self@[j],
            decreases self.tasks.len() - i,
        {
            out.push(self.tasks[i].clone());
            i += 1;
        }
        out
    }

    /// Append a task with the given description and identifier; the task
    /// starts out not complete.
    pub fn create_with_id(&mut self, description: String, id: u128)
        ensures
            final(self)@ == old(self)@.push(new_task_view(description@, id)),
    {
        let t = Task { description, complete: false, id };
        proof {
            lemma_task_views_push(self.tasks@, t);
        }
        self.tasks.push(t);
    }

    /// Append a task with the given description under a freshly generated
    /// identifier, and hand that identifier back. Creation always
    /// succeeds; nothing is promised of the identifier's value, which
    /// comes from a random source.
    pub fn create(&mut self, description: String) -> (id: u128)
        ensures
            final(self)@ == old(self)@.push(new_task_view(description@, id)),
    {
        let id = ids::fresh_id();
        self.create_with_id(description, id);
        id
    }

    /// Remove every task whose identifier equals `id`, keeping the rest
    /// in order. Removing an absent identifier leaves the store as it is.
    pub fn delete_with_id(&mut self, id: u128)
        ensures
            final(self)@ == without_id(old(self)@, id),
    {
        let ghost orig: Seq<TaskView> = self@;
        let mut kept: Vec<Task> = Vec::new();
        let mut i: usize = 0;
        while i < self.tasks.len()
            invariant
                i <= self.tasks.len(),
                self@ == orig,
                task_views(kept@) == without_id(orig.take(i as int), id),
            decreases self.tasks.len() - i,
        {
            proof {
                lemma_without_id_take_step(orig, id, i as int);
            }
            let t = &self.tasks[i];
            if t.id != id {
                proof {
                    lemma_task_views_push(kept@, *t);
                }
                kept.push(t.clone());
            }
            i += 1;
        }
        proof {
            assert(orig.take(orig.len() as int) =~= orig);
        }
        self.tasks = kept;
    }

    /// Parse `id`; on failure report `false` and leave the store as it
    /// is. On success remove every matching task and report `true` — also
    /// when no task matched.
    pub fn delete(&mut self, id: &str) -> (ok: bool)
        ensures
            ok == (parsed_id_of(id@) is Some),
            parsed_id_of(id@) matches Some(u) ==> final(self)@ == without_id(old(self)@, u),
            parsed_id_of(id@) is None ==> final(self)@ == old(self)@,
    {
        match ids::parse_id(id) {
            Some(u) => {
                self.delete_with_id(u);
                true
            },
            None => false,
        }
    }

    /// Replace every task whose identifier equals `id` by `replacement` —
    /// all of its fields, the identifier itself included, so a
    /// replacement may change a task's identity. A task whose identifier
    /// differs is left as it is.
    pub fn update_with_id(&mut self, id: u128, replacement: Task)
        ensures
            final(self)@ == with_replaced(old(self)@, id, replacement@),
    {
        let ghost orig: Seq<TaskView> = self@;
        let n = self.tasks.len();
        let mut i: usize = 0;
        while i < n
            invariant
                i <= n,
                n == self.tasks@.len(),
                self@.len() == orig.len(),
                orig.len() == n,
                forall|j: int|
                    0 <= j < i ==> #[trigger] self@[j] == (if orig[j].id == id {
                        replacement@
                    } else {
                        orig[j]
                    }),
                forall|j: int| i <= j < n ==> #[trigger] self@[j] == orig[j],
            decreases n - i,
        {
            let ghost prev: Seq<TaskView> = self@;
            let tid = self.tasks[i].id;
            proof {
                assert(self@[i as int] == self.tasks@[i as int]@);
                assert(orig[i as int].id == tid);
            }
            if tid == id {
                self.tasks.set(i, replacement.clone());
                assert(self@[i as int] == replacement@);
            }
            assert forall|j: int| 0 <= j < n && j != i implies #[trigger] self@[j] == prev[j] by {
                assert(self.tasks@[j]@ == prev[j]);
            }
            i += 1;
        }
        proof {
            assert(self@ =~= with_replaced(orig, id, replacement@));
        }
    }

    /// Parse `id`; on failure report `false` and leave the store as it
    /// is. On success replace every matching task by `replacement` and
    /// report `true` — also when no task matched.
    pub fn update(&mut self, id: &str, replacement: Task) -> (ok: bool)
        ensures
            ok == (parsed_id_of(id@) is Some),
            parsed_id_of(id@) matches Some(u) ==> final(self)@ == with_replaced(
                old(self)@,
                u,
                replacement@,
            ),
            parsed_id_of(id@) is None ==> final(self)@ == old(self)@,
    {
        match ids::parse_id(id) {
            Some(u) => {
                self.update_with_id(u, replacement);
                true
            },
            None => false,
        }
    }
}

} // verus!
