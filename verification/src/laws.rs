use vstd::prelude::*;

use crate::store::contains_id;
use crate::store::new_task_view;
use crate::store::unique_ids;
use crate::store::with_replaced;
use crate::store::without_id;
use crate::task::TaskView;

verus! {

/// One mutating operation on the store's value, as the store applies it;
/// listing changes nothing and so has no place here.
pub ghost enum Op {
    Create { description: Seq<char>, id: u128 },
    Delete { id: u128 },
    Update { id: u128, replacement: TaskView },
}

/// The store's value after one operation.
pub open spec fn apply_op(s: Seq<TaskView>, op: Op) -> Seq<TaskView> {
    match op {
        Op::Create { description, id } => s.push(new_task_view(description, id)),
        Op::Delete { id } => without_id(s, id),
        Op::Update { id, replacement } => with_replaced(s, id, replacement),
    }
}

/// The freshness an operation relies on: a created identifier is absent
/// from the store, and a replacement either keeps the replaced identifier
/// or brings an absent one. Deletion relies on nothing.
pub open spec fn op_id_fresh(s: Seq<TaskView>, op: Op) -> bool {
    match op {
        Op::Create { description, id } => !contains_id(s, id),
        Op::Delete { id } => true,
        Op::Update { id, replacement } => replacement.id == id || !contains_id(s, replacement.id),
    }
}

/// The store's value after a sequence of operations, applied in order.
pub open spec fn apply_ops(s: Seq<TaskView>, ops: Seq<Op>) -> Seq<TaskView>
    decreases ops.len(),
{
    if ops.len() == 0 {
        s
    } else {
        apply_ops(apply_op(s, ops[0]), ops.drop_first())
    }
}

/// Each operation of the sequence finds, in the state it runs on, the
/// freshness it relies on.
pub open spec fn ops_id_fresh(s: Seq<TaskView>, ops: Seq<Op>) -> bool
    decreases ops.len(),
{
    ops.len() == 0 || (op_id_fresh(s, ops[0]) && ops_id_fresh(apply_op(s, ops[0]), ops.drop_first()))
}

/// Appending a task whose identifier is absent keeps identifiers unique.
pub proof fn lemma_create_preserves_unique_ids(s: Seq<TaskView>, t: TaskView)
    requires
        unique_ids(s),
        !contains_id(s, t.id),
    ensures
        unique_ids(s.push(t)),
{
}

/// Every task that a removal keeps stood in the original sequence, and
/// none of them bears the removed identifier; the sequence cannot grow.
pub proof fn lemma_without_id_membership(s: Seq<TaskView>, id: u128)
    ensures
        without_id(s, id).len() <= s.len(),
        forall|i: int|
            0 <= i < without_id(s, id).len() ==> (#[trigger] without_id(s, id)[i]).id != id
                && s.contains(without_id(s, id)[i]),
    decreases s.len(),
{
    if s.len() > 0 {
        lemma_without_id_membership(s.drop_last(), id);
        let w = without_id(s, id);
        let wd = without_id(s.drop_last(), id);
        assert forall|i: int| 0 <= i < w.len() implies (#[trigger] w[i]).id != id && s.contains(
            w[i],
        ) by {
            if i < wd.len() {
                assert(s.drop_last().contains(wd[i]));
                let j = choose|j: int| 0 <= j < s.drop_last().len() && s.drop_last()[j] == wd[i];
                assert(s[j] == wd[i]);
            } else {
                assert(s.last().id != id);
                assert(w[i] == s.last());
                assert(s[s.len() - 1] == s.last());
            }
        }
    }
}

/// Removing an identifier keeps the remaining identifiers unique,
/// whatever the identifier.
pub proof fn lemma_delete_preserves_unique_ids(s: Seq<TaskView>, id: u128)
    requires
        unique_ids(s),
    ensures
        unique_ids(without_id(s, id)),
    decreases s.len(),
{
    if s.len() > 0 {
        let d = s.drop_last();
        assert(unique_ids(d));
        lemma_delete_preserves_unique_ids(d, id);
        if s.last().id != id {
            let wd = without_id(d, id);
            assert(!contains_id(wd, s.last().id)) by {
                if contains_id(wd, s.last().id) {
                    lemma_without_id_membership(d, id);
                    let k = choose|k: int| 0 <= k < wd.len() && wd[k].id == s.last().id;
                    assert(d.contains(wd[k]));
                    let j = choose|j: int| 0 <= j < d.len() && d[j] == wd[k];
                    assert(s[j] == wd[k]);
                    assert(s[j].id != s[s.len() - 1].id);
                }
            }
            lemma_create_preserves_unique_ids(wd, s.last());
        }
    }
}

/// Removing an identifier that no task bears leaves the sequence as it
/// is: deletion of a valid but absent identifier is a no-op.
pub proof fn lemma_delete_absent_id_unchanged(s: Seq<TaskView>, id: u128)
    requires
        !contains_id(s, id),
    ensures
        without_id(s, id) == s,
    decreases s.len(),
{
    if s.len() == 0 {
        assert(without_id(s, id) =~= s);
    } else {
        let d = s.drop_last();
        assert(!contains_id(d, id)) by {
            if contains_id(d, id) {
                let k = choose|k: int| 0 <= k < d.len() && d[k].id == id;
                assert(s[k].id == id);
            }
        }
        lemma_delete_absent_id_unchanged(d, id);
        assert(s[s.len() - 1].id != id);
        assert(without_id(s, id) =~= s);
    }
}

/// Replacing by a task keeps identifiers unique, provided the
/// replacement keeps the replaced identifier or brings an absent one.
pub proof fn lemma_update_preserves_unique_ids(s: Seq<TaskView>, id: u128, r: TaskView)
    requires
        unique_ids(s),
        r.id == id || !contains_id(s, r.id),
    ensures
        unique_ids(with_replaced(s, id, r)),
{
    let w = with_replaced(s, id, r);
    assert forall|i: int, j: int|
        0 <= i < w.len() && 0 <= j < w.len() && i != j implies w[i].id != w[j].id by {
        if s[i].id == id && s[j].id == id {
            assert(s[i].id != s[j].id);
        } else if s[i].id == id {
            assert(w[j] == s[j]);
            if !(r.id == id) {
                assert(!(s[j].id == r.id));
            }
        } else if s[j].id == id {
            assert(w[i] == s[i]);
            if !(r.id == id) {
                assert(!(s[i].id == r.id));
            }
        }
    }
}

/// A replacement under the identifier of an existing task overwrites
/// every field of exactly that task — the identifier itself included —
/// and leaves every other task as it was.
pub proof fn lemma_update_replaces_matching_task(s: Seq<TaskView>, id: u128, r: TaskView, i: int)
    requires
        unique_ids(s),
        0 <= i < s.len(),
        s[i].id == id,
    ensures
        with_replaced(s, id, r).len() == s.len(),
        with_replaced(s, id, r)[i] == r,
        with_replaced(s, id, r)[i].id == r.id,
        forall|j: int| 0 <= j < s.len() && j != i ==> with_replaced(s, id, r)[j] == s[j],
{
    assert forall|j: int| 0 <= j < s.len() && j != i implies with_replaced(s, id, r)[j]
        == s[j] by {
        assert(s[j].id != s[i].id);
    }
}

/// One operation keeps every identifier in the store unique, provided it
/// finds the freshness it relies on.
pub proof fn lemma_op_preserves_unique_ids(s: Seq<TaskView>, op: Op)
    requires
        unique_ids(s),
        op_id_fresh(s, op),
    ensures
        unique_ids(apply_op(s, op)),
{
    match op {
        Op::Create { description, id } => {
            lemma_create_preserves_unique_ids(s, new_task_view(description, id));
        },
        Op::Delete { id } => {
            lemma_delete_preserves_unique_ids(s, id);
        },
        Op::Update { id, replacement } => {
            lemma_update_preserves_unique_ids(s, id, replacement);
        },
    }
}

/// For every sequence of operations whose created and replacing
/// identifiers are fresh where they must be, every task's identifier in
/// the store stays unique — at the end, and so, since every prefix is
/// again such a sequence, at every observation point along the way.
pub proof fn lemma_ops_preserve_unique_ids(s: Seq<TaskView>, ops: Seq<Op>)
    requires
        unique_ids(s),
        ops_id_fresh(s, ops),
    ensures
        unique_ids(apply_ops(s, ops)),
    decreases ops.len(),
{
    if ops.len() > 0 {
        lemma_op_preserves_unique_ids(s, ops[0]);
        lemma_ops_preserve_unique_ids(apply_op(s, ops[0]), ops.drop_first());
    }
}

/// Serialized creations compose: appending a batch of tasks whose
/// identifiers are pairwise distinct and absent from the store grows the
/// store by exactly the batch's length and keeps identifiers unique.
pub proof fn lemma_serialized_creates_unique_ids(s: Seq<TaskView>, batch: Seq<TaskView>)
    requires
        unique_ids(s),
        unique_ids(batch),
        forall|i: int| 0 <= i < batch.len() ==> !contains_id(s, (#[trigger] batch[i]).id),
    ensures
        (s + batch).len() == s.len() + batch.len(),
        unique_ids(s + batch),
{
    let w = s + batch;
    assert forall|i: int, j: int|
        0 <= i < w.len() && 0 <= j < w.len() && i != j implies w[i].id != w[j].id by {
        if i < s.len() && j < s.len() {
            assert(s[i].id != s[j].id);
        } else if i >= s.len() && j >= s.len() {
            assert(batch[i - s.len()].id != batch[j - s.len()].id);
        } else if i < s.len() {
            assert(!contains_id(s, batch[j - s.len()].id));
            assert(!(s[i].id == batch[j - s.len()].id));
        } else {
            assert(!contains_id(s, batch[i - s.len()].id));
            assert(!(s[j].id == batch[i - s.len()].id));
        }
    }
}

} // verus!
