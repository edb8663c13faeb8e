//! The set of tasks the user has asked to stop.
use vstd::prelude::*;

use crate::text::str_equals;

verus! {

/// The ids of the tasks asked to stop, each held once.
pub struct CancellationSet {
    tasks: Vec<String>,
}

pub open spec fn task_views(tasks: Seq<String>) -> Seq<Seq<char>> {
    tasks.map_values(|s: String| s@)
}

impl View for CancellationSet {
    type V = Set<Seq<char>>;

    closed spec fn view(&self) -> Set<Seq<char>> {
        task_views(self.tasks@).to_set()
    }
}

impl CancellationSet {
    /// No id is held twice.
    pub closed spec fn wf(&self) -> bool {
        task_views(self.tasks@).no_duplicates()
    }

    /// The set asking no task to stop.
    pub fn new() -> (r: CancellationSet)
        ensures
            r.wf(),
            r@ == Set::<Seq<char>>::empty(),
    {
        let r = CancellationSet { tasks: Vec::new() };
        assert(r@ =~= Set::<Seq<char>>::empty());
        r
    }

    fn position(&self, task_id: &str) -> (r: Option<usize>)
        ensures
            match r {
                Some(i) => i < self.tasks@.len() && self.tasks@[i as int]@ == task_id@,
                None => !task_views(self.tasks@).contains(task_id@),
            },
    {
        let n = self.tasks.len();
        for i in 0..n
            invariant
                n == self.tasks@.len(),
                forall|k: int| 0 <= k < i ==> self.tasks@[k]@ != task_id@,
        {
            if str_equals(self.tasks[i].as_str(), task_id) {
                return Some(i);
            }
        }
        assert forall|k: int| 0 <= k < task_views(self.tasks@).len() implies task_views(
            self.tasks@,
        )[k] != task_id@ by {
            assert(task_views(self.tasks@)[k] == self.tasks@[k]@);
        }
        None
    }

    /// Records that `task_id` is to stop (the effect of `cancel_task`).
    pub fn cancel_task(&mut self, task_id: String)
        requires
            old(self).wf(),
        ensures
            final(self).wf(),
            final(self)@ == old(self)@.insert(task_id@),
    {
        match self.position(task_id.as_str()) {
            Some(i) => {
                assert(task_views(self.tasks@)[i as int] == task_id@);
                assert(self@.insert(task_id@) =~= self@);
            },
            None => {
                let ghost old_tasks = self.tasks@;
                let ghost id = task_id@;
                self.tasks.push(task_id);
                assert(task_views(self.tasks@) =~= task_views(old_tasks).push(id));
                assert(self@ =~= task_views(old_tasks).to_set().insert(id)) by {
                    broadcast use Seq::lemma_push_to_set_commute;
                }
                assert forall|a: int, b: int|
                    0 <= a < b < task_views(self.tasks@).len() implies task_views(self.tasks@)[a]
                    != task_views(self.tasks@)[b] by {
                    if b == task_views(old_tasks).len() {
                        assert(task_views(old_tasks).contains(task_views(old_tasks)[a]));
                    }
                }
            },
        }
    }
}

/// Whether `task_id` has been asked to stop.
pub fn is_cancelled(tasks: &CancellationSet, task_id: &str) -> (r: bool)
    ensures
        r == tasks@.contains(task_id@),
{
    match tasks.position(task_id) {
        Some(i) => {
            assert(task_views(tasks.tasks@)[i as int] == task_id@);
            true
        },
        None => false,
    }
}

/// Forgets any request to stop `task_id`.
pub fn clear_cancelled(tasks: &mut CancellationSet, task_id: &str)
    requires
        old(tasks).wf(),
    ensures
        final(tasks).wf(),
        final(tasks)@ == old(tasks)@.remove(task_id@),
{
    match tasks.position(task_id) {
        Some(i) => {
            let ghost old_v = task_views(tasks.tasks@);
            tasks.tasks.remove(i);
            let ghost new_v = task_views(tasks.tasks@);
            assert(new_v =~= old_v.remove(i as int));
            assert forall|a: int, b: int| 0 <= a < b < new_v.len() implies new_v[a]
                != new_v[b] by {
                let a2 = if a < i { a } else { a + 1 };
                let b2 = if b < i { b } else { b + 1 };
                assert(new_v[a] == old_v[a2]);
                assert(new_v[b] == old_v[b2]);
            }
            assert forall|x: Seq<char>| #[trigger] new_v.contains(x) == old_v.to_set().remove(
                task_id@,
            ).contains(x) by {
                if new_v.contains(x) {
                    let j = choose|j: int| 0 <= j < new_v.len() && new_v[j] == x;
                    let j2 = if j < i { j } else { j + 1 };
                    assert(old_v[j2] == x);
                    assert(old_v.contains(x));
                    assert(j2 != i);
                    assert(old_v[i as int] == task_id@);
                    assert(old_v[j2] != old_v[i as int]);
                    assert(old_v.to_set().contains(x));
                }
                if old_v.to_set().remove(task_id@).contains(x) {
                    assert(old_v.contains(x));
                    assert(old_v[i as int] == task_id@);
                    let j = choose|j: int| 0 <= j < old_v.len() && old_v[j] == x;
                    assert(j != i);
                    let j1 = if j < i { j } else { j - 1 };
                    assert(new_v[j1] == x);
                }
            }
            assert(tasks@ =~= old(tasks)@.remove(task_id@));
        },
        None => {
            assert(old(tasks)@.remove(task_id@) =~= old(tasks)@);
        },
    }
}

} // verus!
