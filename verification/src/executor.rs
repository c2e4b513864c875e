//! A small executor: spawned tasks wait in a bounded first-in first-out
//! queue, and running the executor polls queued tasks until none is left.
//! A task that is not finished stays parked in its slot until it is woken,
//! which queues it again. A wake that comes from elsewhere after the queue
//! ran empty is delivered by the caller: it calls `wake`, then `run` again,
//! for as long as wakes keep coming.

use std::collections::VecDeque;
use vstd::prelude::*;

verus! {

/// How many tasks can wait in the queue at once.
pub const QUEUE_CAPACITY: usize = 1000;

/// The most polls one `run` makes; it stops there even if tasks keep waking
/// themselves.
pub const MAX_POLLS: u64 = 0xffff_ffff_ffff_ffff;

/// What polling a task gave.
pub enum TaskPoll {
    /// The task is finished.
    Ready,
    /// The task is not finished and waits to be woken.
    Pending,
    /// The task is not finished and woke itself while it was polled.
    Woken,
}

/// A unit of work the executor can poll.
pub trait Task {
    fn poll(&mut self) -> TaskPoll;
}

/// The executor: a slot per spawned task (empty once it is finished) and the
/// queue of tasks to poll.
pub struct Executor<F> {
    slots: Vec<Option<F>>,
    queue: VecDeque<usize>,
    taken: Ghost<Seq<usize>>,
    answers: Ghost<Seq<(usize, TaskPoll)>>,
    polled_tasks: Ghost<Seq<F>>,
    inputs: Ghost<Seq<F>>,
    takes: Ghost<Seq<int>>,
}

/// `k` is the last answer, from `from` on, about the task in slot `id`.
pub open spec fn is_last_answer(answers: Seq<(usize, TaskPoll)>, from: int, id: usize, k: int) -> bool {
    &&& from <= k < answers.len()
    &&& answers[k].0 == id
    &&& forall|j: int| k < j < answers.len() ==> answers[j].0 != id
}

/// The task in answer `k` was polled again later.
pub open spec fn answered_again(answers: Seq<(usize, TaskPoll)>, k: int) -> bool {
    exists|j: int| k < j < answers.len() && answers[j].0 == answers[k].0
}

proof fn lemma_contains_tail(q: Seq<usize>, x: usize)
    requires
        q.contains(x),
        q.len() > 0,
        q[0] != x,
    ensures
        q.subrange(1, q.len() as int).contains(x),
{
    let k = choose|k: int| 0 <= k < q.len() && q[k] == x;
    assert(q.subrange(1, q.len() as int)[k - 1] == x);
}

/// A task taken off the queue while its slot was empty: nothing was polled,
/// so the logs keep what they said of parked and woken tasks.
proof fn lemma_after_skip<F>(
    slots: Seq<Option<F>>,
    answers: Seq<(usize, TaskPoll)>,
    queue: Seq<usize>,
    new_queue: Seq<usize>,
    sa: int,
    id: usize,
)
    requires
        queue.len() > 0,
        queue[0] == id,
        new_queue == queue.subrange(1, queue.len() as int),
        id < slots.len(),
        slots[id as int] is None,
        forall|k: int|
            sa <= k < answers.len() && (#[trigger] answers[k]).1 == TaskPoll::Woken
                ==> answered_again(answers, k) || (queue.contains(answers[k].0)
                && slots[answers[k].0 as int] is Some),
    ensures
        forall|k: int|
            sa <= k < answers.len() && (#[trigger] answers[k]).1 == TaskPoll::Woken
                ==> answered_again(answers, k) || (new_queue.contains(answers[k].0)
                && slots[answers[k].0 as int] is Some),
{
    assert forall|k: int|
        sa <= k < answers.len() && (#[trigger] answers[k]).1 == TaskPoll::Woken implies answered_again(
        answers,
        k,
    ) || (new_queue.contains(answers[k].0) && slots[answers[k].0 as int] is Some) by {
        if !answered_again(answers, k) {
            assert(answers[k].0 != id);
            lemma_contains_tail(queue, answers[k].0);
        }
    }
}

/// After the task in slot `id` was taken off the queue and polled: its slot
/// holds what its answer says, and what the logs said of every other task
/// still holds.
proof fn lemma_after_poll<F>(
    slots: Seq<Option<F>>,
    answers: Seq<(usize, TaskPoll)>,
    tasks: Seq<F>,
    queue: Seq<usize>,
    new_slots: Seq<Option<F>>,
    new_answers: Seq<(usize, TaskPoll)>,
    new_tasks: Seq<F>,
    new_queue: Seq<usize>,
    n: int,
    sa: int,
    id: usize,
)
    requires
        0 <= sa <= answers.len(),
        tasks.len() == answers.len(),
        slots.len() == n,
        n <= usize::MAX,
        forall|p: int| 0 <= p < queue.len() ==> #[trigger] queue[p] < n,
        queue.len() > 0,
        queue[0] == id,
        id < n,
        slots[id as int] is Some,
        new_answers.len() == answers.len() + 1,
        new_tasks.len() == tasks.len() + 1,
        new_answers.drop_last() == answers,
        new_tasks.drop_last() == tasks,
        new_answers.last().0 == id,
        new_slots == slots.update(id as int, slot_after(new_answers.last().1, new_tasks.last())),
        new_answers.last().1 == TaskPoll::Woken ==> new_queue == queue.subrange(
            1,
            queue.len() as int,
        ).push(id),
        new_answers.last().1 != TaskPoll::Woken ==> new_queue == queue.subrange(
            1,
            queue.len() as int,
        ),
        forall|i: int, k: int|
            0 <= i < n && #[trigger] is_last_answer(answers, sa, i as usize, k) ==> slots[i]
                == slot_after(answers[k].1, tasks[k]),
        forall|k: int|
            sa <= k < answers.len() && (#[trigger] answers[k]).1 == TaskPoll::Woken
                ==> answered_again(answers, k) || (queue.contains(answers[k].0)
                && slots[answers[k].0 as int] is Some),
    ensures
        forall|i: int, k: int|
            0 <= i < n && #[trigger] is_last_answer(new_answers, sa, i as usize, k) ==> new_slots[i]
                == slot_after(new_answers[k].1, new_tasks[k]),
        forall|k: int|
            sa <= k < new_answers.len() && (#[trigger] new_answers[k]).1 == TaskPoll::Woken
                ==> answered_again(new_answers, k) || (new_queue.contains(new_answers[k].0)
                && new_slots[new_answers[k].0 as int] is Some),
{
    let last = answers.len() as int;
    assert(new_answers[last] == new_answers.last());
    assert(new_tasks[last] == new_tasks.last());
    assert forall|i: int, k: int|
        0 <= i < n && #[trigger] is_last_answer(new_answers, sa, i as usize, k) implies new_slots[i]
        == slot_after(new_answers[k].1, new_tasks[k]) by {
        if i == id as int {
            if k < last {
                assert(new_answers[last].0 == i as usize);
                assert(false);
            }
        } else {
            assert((i as usize) as int == i);
            assert(k != last);
            assert(new_answers[k] == answers[k]);
            assert(new_tasks[k] == tasks[k]);
            assert forall|j: int| k < j < answers.len() implies answers[j].0 != i as usize by {
                assert(new_answers[j] == answers[j]);
            }
            assert(is_last_answer(answers, sa, i as usize, k));
        }
    }
    assert forall|k: int|
        sa <= k < new_answers.len() && (#[trigger] new_answers[k]).1 == TaskPoll::Woken implies answered_again(
        new_answers,
        k,
    ) || (new_queue.contains(new_answers[k].0) && new_slots[new_answers[k].0 as int] is Some) by {
        if k == last {
            assert(new_queue[new_queue.len() - 1] == id);
            assert(new_queue.contains(id));
        } else {
            assert(new_answers[k] == answers[k]);
            let x = answers[k].0;
            if x == id {
                assert(answered_again(new_answers, k)) by {
                    assert(k < last && new_answers[last].0 == new_answers[k].0);
                }
            } else if answered_again(answers, k) {
                let j = choose|j: int| k < j < answers.len() && answers[j].0 == answers[k].0;
                assert(new_answers[j] == answers[j]);
            } else {
                lemma_contains_tail(queue, x);
                let q0 = choose|p: int| 0 <= p < queue.len() && queue[p] == x;
                assert(x < n);
                assert(x as int != id as int);
                let tail = queue.subrange(1, queue.len() as int);
                if new_answers.last().1 == TaskPoll::Woken {
                    let p = choose|p: int| 0 <= p < tail.len() && tail[p] == x;
                    assert(new_queue[p] == x);
                }
                assert(new_slots[x as int] == slots[x as int]);
            }
        }
    }
}

/// What a slot holds after its task answered `answer` and was left as `task`
/// by the poll: nothing once it is ready, else that very task.
pub open spec fn slot_after<F>(answer: TaskPoll, task: F) -> Option<F> {
    match answer {
        TaskPoll::Ready => None,
        _ => Some(task),
    }
}

/// Answer `j` is the one just before answer `k` about the same task.
pub open spec fn is_previous_answer(answers: Seq<(usize, TaskPoll)>, j: int, k: int) -> bool {
    &&& 0 <= j < k < answers.len()
    &&& answers[j].0 == answers[k].0
    &&& forall|m: int| j < m < k ==> answers[m].0 != answers[k].0
}

/// Answer `k` is the first, from `from` on, about its task.
pub open spec fn is_first_answer(answers: Seq<(usize, TaskPoll)>, from: int, k: int) -> bool {
    &&& from <= k < answers.len()
    &&& forall|m: int| from <= m < k ==> answers[m].0 != answers[k].0
}

/// No answer from `from` on is about the task in slot `id`.
pub open spec fn unanswered(answers: Seq<(usize, TaskPoll)>, from: int, id: usize) -> bool {
    forall|m: int| from <= m < answers.len() ==> answers[m].0 != id
}

/// How the polls from answer `from` on follow the slots as they were
/// then (`start_slots`): a task is polled only while its slot holds it, so
/// never once it is finished; its first poll gets the task from its slot,
/// and each later poll the task as the poll before left it; a task not
/// polled still holds its slot.
spec fn run_links<F>(
    start_slots: Seq<Option<F>>,
    slots: Seq<Option<F>>,
    answers: Seq<(usize, TaskPoll)>,
    tasks: Seq<F>,
    inputs: Seq<F>,
    from: int,
) -> bool {
    &&& forall|k: int|
        from <= k < answers.len() ==> (#[trigger] answers[k]).0 < start_slots.len()
            && start_slots[answers[k].0 as int] is Some
    &&& forall|j: int, k: int|
        from <= j < k < answers.len() && (#[trigger] answers[j]).1 == TaskPoll::Ready
            ==> answers[j].0 != (#[trigger] answers[k]).0
    &&& forall|j: int, k: int|
        from <= j && #[trigger] is_previous_answer(answers, j, k) ==> answers[j].1
            != TaskPoll::Ready && inputs[k] == tasks[j]
    &&& forall|k: int|
        #[trigger] is_first_answer(answers, from, k) ==> start_slots[answers[k].0 as int] == Some(
            inputs[k],
        )
    &&& forall|i: int|
        0 <= i < slots.len() && #[trigger] unanswered(answers, from, i as usize) ==> slots[i]
            == start_slots[i]
}

/// The task in slot `id`, held there as `input`, was polled: the links of
/// the polls still hold with its answer added.
proof fn lemma_links_after_poll<F>(
    start_slots: Seq<Option<F>>,
    slots: Seq<Option<F>>,
    answers: Seq<(usize, TaskPoll)>,
    tasks: Seq<F>,
    inputs: Seq<F>,
    new_slots: Seq<Option<F>>,
    answer: TaskPoll,
    task: F,
    input: F,
    n: int,
    sa: int,
    id: usize,
)
    requires
        0 <= sa <= answers.len(),
        tasks.len() == answers.len(),
        inputs.len() == answers.len(),
        slots.len() == n,
        start_slots.len() == n,
        new_slots.len() == n,
        n <= usize::MAX,
        id < n,
        slots[id as int] == Some(input),
        start_slots[id as int] is Some,
        !answered_ready(answers, sa, id),
        forall|i: int| 0 <= i < n && i != id ==> #[trigger] new_slots[i] == slots[i],
        forall|i: int, k: int|
            0 <= i < n && #[trigger] is_last_answer(answers, sa, i as usize, k) ==> slots[i]
                == slot_after(answers[k].1, tasks[k]),
        run_links(start_slots, slots, answers, tasks, inputs, sa),
    ensures
        run_links(
            start_slots,
            new_slots,
            answers.push((id, answer)),
            tasks.push(task),
            inputs.push(input),
            sa,
        ),
{
    let a2 = answers.push((id, answer));
    let t2 = tasks.push(task);
    let i2 = inputs.push(input);
    let last = answers.len() as int;
    assert(a2[last] == (id, answer));
    assert forall|k: int| sa <= k < a2.len() implies (#[trigger] a2[k]).0 < start_slots.len()
        && start_slots[a2[k].0 as int] is Some by {
        if k < last {
            assert(a2[k] == answers[k]);
        }
    }
    assert forall|j: int, k: int|
        sa <= j < k < a2.len() && (#[trigger] a2[j]).1 == TaskPoll::Ready implies a2[j].0 != (
        #[trigger] a2[k]).0 by {
        assert(a2[j] == answers[j]);
        if k < last {
            assert(a2[k] == answers[k]);
        } else if a2[j].0 == id {
            assert(answers[j] == (id, TaskPoll::Ready));
            assert(answered_ready(answers, sa, id));
        }
    }
    assert forall|j: int, k: int| sa <= j && #[trigger] is_previous_answer(a2, j, k) implies a2[j].1
        != TaskPoll::Ready && i2[k] == t2[j] by {
        assert(a2[j] == answers[j]);
        assert(t2[j] == tasks[j]);
        if k < last {
            assert(a2[k] == answers[k]);
            assert(i2[k] == inputs[k]);
            assert forall|m: int| j < m < k implies answers[m].0 != answers[k].0 by {
                assert(a2[m] == answers[m]);
            }
            assert(is_previous_answer(answers, j, k));
        } else {
            assert forall|m: int| j < m < answers.len() implies answers[m].0 != id by {
                assert(a2[m] == answers[m]);
            }
            assert(((id as int) as usize) == id);
            assert(is_last_answer(answers, sa, (id as int) as usize, j));
        }
    }
    assert forall|k: int| #[trigger] is_first_answer(a2, sa, k) implies start_slots[a2[k].0 as int]
        == Some(i2[k]) by {
        if k < last {
            assert(a2[k] == answers[k]);
            assert(i2[k] == inputs[k]);
            assert forall|m: int| sa <= m < k implies answers[m].0 != answers[k].0 by {
                assert(a2[m] == answers[m]);
            }
            assert(is_first_answer(answers, sa, k));
        } else {
            assert forall|m: int| sa <= m < answers.len() implies answers[m].0 != id by {
                assert(a2[m] == answers[m]);
            }
            assert(((id as int) as usize) == id);
            assert(unanswered(answers, sa, (id as int) as usize));
        }
    }
    assert forall|i: int|
        0 <= i < new_slots.len() && #[trigger] unanswered(a2, sa, i as usize) implies new_slots[i]
        == start_slots[i] by {
        assert(a2[last].0 != i as usize);
        assert((i as usize) as int == i);
        assert(i != id as int);
        assert forall|m: int| sa <= m < answers.len() implies answers[m].0 != i as usize by {
            assert(a2[m] == answers[m]);
        }
        assert(unanswered(answers, sa, i as usize));
    }
}

/// Every task that was queued (`start_queue`) with a filled slot
/// (`start_slots`) has been polled since answer `from`, or is still queued.
spec fn queued_reached<F>(
    start_slots: Seq<Option<F>>,
    start_queue: Seq<usize>,
    answers: Seq<(usize, TaskPoll)>,
    queue: Seq<usize>,
    from: int,
) -> bool {
    forall|i: int|
        0 <= i < start_slots.len() && start_queue.contains(i as usize) && (
        #[trigger] start_slots[i]) is Some ==> !unanswered(answers, from, i as usize)
            || queue.contains(i as usize)
}

/// The task in slot `id` was taken off the front of the queue; if its slot
/// was filled when the run began, it has been polled by now.
proof fn lemma_reached_after_take<F>(
    start_slots: Seq<Option<F>>,
    start_queue: Seq<usize>,
    answers: Seq<(usize, TaskPoll)>,
    queue: Seq<usize>,
    new_answers: Seq<(usize, TaskPoll)>,
    new_queue: Seq<usize>,
    from: int,
    id: usize,
)
    requires
        0 <= from,
        start_slots.len() <= usize::MAX,
        queue.len() > 0,
        queue[0] == id,
        new_queue.len() >= queue.len() - 1,
        forall|p: int| 0 <= p < queue.len() - 1 ==> new_queue[p] == queue[p + 1],
        new_answers.len() >= answers.len(),
        forall|m: int| 0 <= m < answers.len() ==> new_answers[m] == answers[m],
        id < start_slots.len() && start_slots[id as int] is Some ==> !unanswered(
            new_answers,
            from,
            id,
        ),
        queued_reached(start_slots, start_queue, answers, queue, from),
    ensures
        queued_reached(start_slots, start_queue, new_answers, new_queue, from),
{
    assert forall|i: int|
        0 <= i < start_slots.len() && start_queue.contains(i as usize) && (
        #[trigger] start_slots[i]) is Some implies !unanswered(new_answers, from, i as usize)
        || new_queue.contains(i as usize) by {
        assert((i as usize) as int == i);
        if i as usize != id {
            if !unanswered(answers, from, i as usize) {
                if unanswered(new_answers, from, i as usize) {
                    assert forall|m: int| from <= m < answers.len() implies answers[m].0
                        != i as usize by {
                        assert(new_answers[m] == answers[m]);
                    }
                }
            } else {
                let p = choose|p: int| 0 <= p < queue.len() && queue[p] == i as usize;
                assert(p != 0);
                assert(new_queue[p - 1] == queue[p]);
            }
        }
    }
}

/// The tasks that woke themselves while they were polled, in the order of
/// the answers.
pub open spec fn woken_ids(answers: Seq<(usize, TaskPoll)>) -> Seq<usize>
    decreases answers.len(),
{
    if answers.len() == 0 {
        Seq::empty()
    } else if answers.last().1 == TaskPoll::Woken {
        woken_ids(answers.drop_last()).push(answers.last().0)
    } else {
        woken_ids(answers.drop_last())
    }
}

/// Some answer from `from` on says the task in slot `id` is ready.
pub open spec fn answered_ready(answers: Seq<(usize, TaskPoll)>, from: int, id: usize) -> bool {
    exists|k: int| from <= k < answers.len() && answers[k] == (id, TaskPoll::Ready)
}

impl<F: Task> Executor<F> {
    /// The task in each slot; `None` once the task is finished.
    pub closed spec fn slots(&self) -> Seq<Option<F>> {
        self.slots@
    }

    /// The tasks waiting to be polled, first to be polled first.
    pub closed spec fn queued(&self) -> Seq<usize> {
        self.queue@
    }

    /// Every task ever taken off the queue, in order.
    pub closed spec fn taken(&self) -> Seq<usize> {
        self.taken@
    }

    /// Every poll ever made, with the task it polled and its answer, in order.
    pub closed spec fn answers(&self) -> Seq<(usize, TaskPoll)> {
        self.answers@
    }

    /// Each polled task as its poll left it, in the order of `answers`.
    pub closed spec fn polled_tasks(&self) -> Seq<F> {
        self.polled_tasks@
    }

    /// Each polled task as it was when it was taken off the queue, in the
    /// order of `answers`.
    pub closed spec fn inputs(&self) -> Seq<F> {
        self.inputs@
    }

    /// For each answer, the take off the queue it came from: its index in
    /// `taken`.
    pub closed spec fn takes(&self) -> Seq<int> {
        self.takes@
    }

    /// The queue holds at most `QUEUE_CAPACITY` tasks, each of them spawned;
    /// each answer comes from a take of its own task off the queue, later
    /// answers from later takes.
    pub open spec fn wf(&self) -> bool {
        &&& self.queued().len() <= QUEUE_CAPACITY
        &&& self.polled_tasks().len() == self.answers().len()
        &&& self.inputs().len() == self.answers().len()
        &&& self.takes().len() == self.answers().len()
        &&& forall|k: int|
            0 <= k < self.answers().len() ==> 0 <= #[trigger] self.takes()[k] < self.taken().len()
                && self.taken()[self.takes()[k]] == self.answers()[k].0
        &&& forall|j: int, k: int|
            0 <= j < k < self.answers().len() ==> #[trigger] self.takes()[j]
                < #[trigger] self.takes()[k]
        &&& forall|i: int| 0 <= i < self.queued().len() ==> #[trigger] self.queued()[i] < self.slots().len()
    }

    /// An executor with no tasks.
    pub fn new() -> (e: Self)
        ensures
            e.wf(),
            e.slots() == Seq::<Option<F>>::empty(),
            e.queued() == Seq::<usize>::empty(),
            e.taken() == Seq::<usize>::empty(),
            e.answers() == Seq::<(usize, TaskPoll)>::empty(),
            e.polled_tasks() == Seq::<F>::empty(),
            e.inputs() == Seq::<F>::empty(),
            e.takes() == Seq::<int>::empty(),
    {
        Executor {
            slots: Vec::new(),
            queue: VecDeque::new(),
            taken: Ghost(Seq::empty()),
            answers: Ghost(Seq::empty()),
            polled_tasks: Ghost(Seq::empty()),
            inputs: Ghost(Seq::empty()),
            takes: Ghost(Seq::empty()),
        }
    }

    /// The number of tasks waiting to be polled.
    pub fn queue_len(&self) -> (n: usize)
        ensures
            n == self.queued().len(),
    {
        self.queue.len()
    }

    /// The number of tasks ever spawned.
    pub fn num_tasks(&self) -> (n: usize)
        ensures
            n == self.slots().len(),
    {
        self.slots.len()
    }

    /// Whether the task in slot `id` is finished.
    pub fn is_finished(&self, id: usize) -> (done: bool)
        requires
            id < self.slots().len(),
        ensures
            done == (self.slots()[id as int] is None),
    {
        self.slots[id].is_none()
    }

    /// Spawns `future` as a new task and queues it; returns its slot.
    pub fn spawn_obj(&mut self, future: F) -> (id: usize)
        requires
            old(self).wf(),
            old(self).queued().len() < QUEUE_CAPACITY,
            old(self).slots().len() < usize::MAX,
        ensures
            final(self).wf(),
            id == old(self).slots().len(),
            final(self).slots() == old(self).slots().push(Some(future)),
            final(self).queued() == old(self).queued().push(id),
            final(self).taken() == old(self).taken(),
            final(self).answers() == old(self).answers(),
            final(self).polled_tasks() == old(self).polled_tasks(),
            final(self).inputs() == old(self).inputs(),
            final(self).takes() == old(self).takes(),
    {
        let id = self.slots.len();
        self.slots.push(Some(future));
        self.queue.push_back(id);
        id
    }

    /// Wakes the task in slot `id`: it is queued again.
    pub fn wake(&mut self, id: usize)
        requires
            old(self).wf(),
            id < old(self).slots().len(),
            old(self).queued().len() < QUEUE_CAPACITY,
        ensures
            final(self).wf(),
            final(self).slots() == old(self).slots(),
            final(self).queued() == old(self).queued().push(id),
            final(self).taken() == old(self).taken(),
            final(self).answers() == old(self).answers(),
            final(self).polled_tasks() == old(self).polled_tasks(),
            final(self).inputs() == old(self).inputs(),
            final(self).takes() == old(self).takes(),
    {
        self.queue.push_back(id);
    }

    /// Polls queued tasks, first queued first, until the queue is empty or
    /// `MAX_POLLS` tasks were taken off it; returns how many were taken off.
    /// A task taken off while it is finished is skipped. A task that is
    /// ready is dropped from its slot; one that is pending is put back into
    /// its slot as the poll left it, and is polled again only once woken;
    /// one that woke itself is put back and queued again. So the tasks taken
    /// off are those queued at the start, then those that woke themselves,
    /// in order.
    pub fn run(&mut self) -> (polled: u64)
        requires
            old(self).wf(),
        ensures
            final(self).wf(),
            final(self).queued().len() == 0 || polled == MAX_POLLS,
            final(self).slots().len() == old(self).slots().len(),
            final(self).taken().len() == old(self).taken().len() + polled,
            final(self).taken().subrange(0, old(self).taken().len() as int) == old(self).taken(),
            final(self).taken().subrange(old(self).taken().len() as int, final(self).taken().len() as int)
                + final(self).queued() == old(self).queued() + woken_ids(
                final(self).answers().subrange(
                    old(self).answers().len() as int,
                    final(self).answers().len() as int,
                ),
            ),
            polled >= old(self).queued().len() ==> final(self).taken().subrange(
                old(self).taken().len() as int,
                (old(self).taken().len() + old(self).queued().len()) as int,
            ) == old(self).queued(),
            forall|i: int|
                0 <= i < old(self).slots().len() && !old(self).queued().contains(i as usize)
                    ==> #[trigger] final(self).slots()[i] == old(self).slots()[i],
            final(self).answers().subrange(0, old(self).answers().len() as int) == old(
                self,
            ).answers(),
            forall|k: int|
                old(self).answers().len() <= k < final(self).answers().len() ==> old(
                    self,
                ).queued().contains(#[trigger] final(self).answers()[k].0),
            forall|i: int|
                0 <= i < old(self).slots().len() ==> (#[trigger] final(self).slots()[i] is None <==> (
                old(self).slots()[i] is None || answered_ready(
                    final(self).answers(),
                    old(self).answers().len() as int,
                    i as usize,
                ))),
            final(self).polled_tasks().subrange(0, old(self).answers().len() as int) == old(
                self,
            ).polled_tasks(),
            final(self).inputs().subrange(0, old(self).answers().len() as int) == old(
                self,
            ).inputs(),
            final(self).takes().subrange(0, old(self).answers().len() as int) == old(
                self,
            ).takes(),
            forall|k: int|
                old(self).answers().len() <= k < final(self).answers().len() ==> old(
                    self,
                ).slots()[(#[trigger] final(self).answers()[k]).0 as int] is Some,
            forall|j: int, k: int|
                old(self).answers().len() <= j < k < final(self).answers().len() && (
                #[trigger] final(self).answers()[j]).1 == TaskPoll::Ready
                    ==> final(self).answers()[j].0 != (#[trigger] final(self).answers()[k]).0,
            forall|j: int, k: int|
                old(self).answers().len() <= j && #[trigger] is_previous_answer(
                    final(self).answers(),
                    j,
                    k,
                ) ==> final(self).answers()[j].1 != TaskPoll::Ready && final(self).inputs()[k]
                    == final(self).polled_tasks()[j],
            forall|k: int|
                #[trigger] is_first_answer(final(self).answers(), old(self).answers().len() as int, k)
                    ==> old(self).slots()[final(self).answers()[k].0 as int] == Some(
                    final(self).inputs()[k],
                ),
            forall|i: int, k: int|
                0 <= i < old(self).slots().len() && #[trigger] is_last_answer(
                    final(self).answers(),
                    old(self).answers().len() as int,
                    i as usize,
                    k,
                ) ==> final(self).slots()[i] == slot_after(
                    final(self).answers()[k].1,
                    final(self).polled_tasks()[k],
                ),
            polled < MAX_POLLS ==> forall|i: int|
                0 <= i < old(self).slots().len() && old(self).queued().contains(i as usize) && (
                #[trigger] old(self).slots()[i]) is Some ==> !unanswered(
                    final(self).answers(),
                    old(self).answers().len() as int,
                    i as usize,
                ),
            polled < MAX_POLLS ==> forall|k: int|
                old(self).answers().len() <= k < final(self).answers().len() && (
                #[trigger] final(self).answers()[k]).1 == TaskPoll::Woken ==> answered_again(
                    final(self).answers(),
                    k,
                ),
    {
        let ghost start_taken = self.taken@;
        let ghost start_queue = self.queue@;
        let ghost start_slots = self.slots@;
        let ghost start_answers = self.answers@;
        let ghost start_tasks = self.polled_tasks@;
        let ghost start_inputs = self.inputs@;
        let ghost start_takes = self.takes@;
        let ghost mut requeued: Seq<usize> = Seq::empty();
        let mut polled: u64 = 0;
        while polled < MAX_POLLS && self.queue.len() > 0
            invariant
                self.wf(),
                self.slots@.len() == start_slots.len(),
                self.taken@.len() == start_taken.len() + polled,
                self.taken@.subrange(0, start_taken.len() as int) == start_taken,
                self.taken@.subrange(start_taken.len() as int, self.taken@.len() as int) + self.queue@
                    == start_queue + requeued,
                forall|k: int| 0 <= k < requeued.len() ==> start_queue.contains(#[trigger] requeued[k]),
                requeued == woken_ids(
                    self.answers@.subrange(start_answers.len() as int, self.answers@.len() as int),
                ),
                forall|i: int|
                    0 <= i < start_slots.len() && !start_queue.contains(i as usize)
                        ==> #[trigger] self.slots@[i] == start_slots[i],
                self.answers@.subrange(0, start_answers.len() as int) == start_answers,
                self.answers@.len() >= start_answers.len(),
                forall|k: int|
                    start_answers.len() <= k < self.answers@.len() ==> start_queue.contains(
                        #[trigger] self.answers@[k].0,
                    ),
                forall|i: int|
                    0 <= i < start_slots.len() ==> (#[trigger] self.slots@[i] is None <==> (
                    start_slots[i] is None || answered_ready(
                        self.answers@,
                        start_answers.len() as int,
                        i as usize,
                    ))),
                self.polled_tasks@.subrange(0, start_answers.len() as int) == start_tasks,
                self.inputs@.subrange(0, start_answers.len() as int) == start_inputs,
                self.takes@.subrange(0, start_answers.len() as int) == start_takes,
                queued_reached(
                    start_slots,
                    start_queue,
                    self.answers@,
                    self.queue@,
                    start_answers.len() as int,
                ),
                run_links(
                    start_slots,
                    self.slots@,
                    self.answers@,
                    self.polled_tasks@,
                    self.inputs@,
                    start_answers.len() as int,
                ),
                forall|i: int, k: int|
                    0 <= i < start_slots.len() && #[trigger] is_last_answer(
                        self.answers@,
                        start_answers.len() as int,
                        i as usize,
                        k,
                    ) ==> self.slots@[i] == slot_after(self.answers@[k].1, self.polled_tasks@[k]),
                forall|k: int|
                    start_answers.len() <= k < self.answers@.len() && (
                    #[trigger] self.answers@[k]).1 == TaskPoll::Woken ==> answered_again(
                        self.answers@,
                        k,
                    ) || (self.queue@.contains(self.answers@[k].0) && self.slots@[self.answers@[
                        k
                    ].0 as int] is Some),
            decreases MAX_POLLS - polled,
        {
            let ghost before_taken = self.taken@;
            let ghost before_queue = self.queue@;
            let id = match self.queue.pop_front() {
                Some(id) => id,
                None => {
                    assert(false);
                    0
                },
            };
            assert(before_queue[0] == id);
            assert(self.queue@ == before_queue.subrange(1, before_queue.len() as int));
            assert(id < self.slots@.len());
            self.taken = Ghost(self.taken@.push(id));
            polled = polled + 1;
            proof {
                let s = start_taken.len() as int;
                assert(self.taken@.subrange(0, s) =~= start_taken) by {
                    assert forall|k: int| 0 <= k < s implies self.taken@.subrange(0, s)[k]
                        == start_taken[k] by {
                        assert(before_taken.subrange(0, s)[k] == start_taken[k]);
                    }
                }
                assert(self.taken@.subrange(s, self.taken@.len() as int) =~= before_taken.subrange(
                    s,
                    before_taken.len() as int,
                ).push(id));
                assert(self.taken@.subrange(s, self.taken@.len() as int) + self.queue@
                    =~= before_taken.subrange(s, before_taken.len() as int) + before_queue);
                assert(start_queue.contains(id)) by {
                    let whole = start_queue + requeued;
                    let k = before_taken.len() - s;
                    assert(whole[k] == id);
                    if k >= start_queue.len() {
                        assert(requeued[k - start_queue.len()] == id);
                    }
                }
            }
            let ghost before_slots = self.slots@;
            let ghost before_answers = self.answers@;
            let ghost before_tasks = self.polled_tasks@;
            let ghost before_inputs = self.inputs@;
            let ghost before_takes = self.takes@;
            let ghost tail = self.queue@;
            let mut slot: Option<F> = None;
            self.slots.set_and_swap(id, &mut slot);
            match slot {
                Some(mut task) => {
                    let ghost input = task;
                    let answer = task.poll();
                    self.answers = Ghost(self.answers@.push((id, answer)));
                    self.polled_tasks = Ghost(self.polled_tasks@.push(task));
                    self.inputs = Ghost(self.inputs@.push(input));
                    self.takes = Ghost(self.takes@.push(self.taken@.len() - 1));
                    proof {
                        let a = self.answers@;
                        let sa = start_answers.len() as int;
                        assert(a.subrange(sa, a.len() as int).drop_last() =~= before_answers.subrange(
                            sa,
                            before_answers.len() as int,
                        ));
                        assert(a.subrange(sa, a.len() as int).last() == (id, answer));
                        assert(a.subrange(0, sa) =~= start_answers) by {
                            assert forall|k: int| 0 <= k < sa implies a.subrange(0, sa)[k]
                                == start_answers[k] by {
                                assert(before_answers.subrange(0, sa)[k] == start_answers[k]);
                            }
                        }
                        assert forall|i: int| 0 <= i < start_slots.len() && i != id implies (
                        #[trigger] answered_ready(a, sa, i as usize) <==> answered_ready(
                            before_answers,
                            sa,
                            i as usize,
                        )) by {
                            if answered_ready(a, sa, i as usize) {
                                let k = choose|k: int|
                                    sa <= k < a.len() && a[k] == (i as usize, TaskPoll::Ready);
                                if k == a.len() - 1 {
                                    assert(a[k].0 == id);
                                    assert(i < self.slots.len());
                                    assert((i as usize) as int == i);
                                    assert(false);
                                }
                                assert(before_answers[k] == a[k]);
                            }
                            if answered_ready(before_answers, sa, i as usize) {
                                let k = choose|k: int|
                                    sa <= k < before_answers.len() && before_answers[k] == (
                                        i as usize,
                                        TaskPoll::Ready,
                                    );
                                assert(a[k] == before_answers[k]);
                            }
                        }
                        assert(!answered_ready(before_answers, sa, id));
                        assert(a[a.len() - 1] == (id, answer));
                        if answered_ready(a, sa, id) {
                            let k = choose|k: int|
                                sa <= k < a.len() && a[k] == (id, TaskPoll::Ready);
                            if k < a.len() - 1 {
                                assert(before_answers[k] == a[k]);
                            }
                        }
                        if answer == TaskPoll::Ready {
                            assert(answered_ready(a, sa, id));
                        }
                    }
                    match answer {
                        TaskPoll::Ready => {},
                        TaskPoll::Pending => {
                            self.slots.set(id, Some(task));
                        },
                        TaskPoll::Woken => {
                            self.slots.set(id, Some(task));
                            let ghost q = self.queue@;
                            self.queue.push_back(id);
                            proof {
                                let s = start_taken.len() as int;
                                let p = self.taken@.subrange(s, self.taken@.len() as int);
                                assert(p + self.queue@ =~= (p + q).push(id));
                                requeued = requeued.push(id);
                            }
                        },
                    }
                    proof {
                        assert(self.answers@.drop_last() =~= before_answers);
                        assert(self.polled_tasks@.drop_last() =~= before_tasks);
                        assert(self.slots@ =~= before_slots.update(
                            id as int,
                            slot_after(self.answers@.last().1, self.polled_tasks@.last()),
                        ));
                        assert(self.slots@.len() == self.slots.len());
                        assert(self.answers@ == before_answers.push((id, answer)));
                        assert(self.polled_tasks@ =~= before_tasks.push(self.polled_tasks@.last()));
                        assert(self.inputs@ == before_inputs.push(input));
                        assert(before_slots[id as int] == Some(input));
                        assert(start_slots[id as int] is Some);
                        lemma_links_after_poll(
                            start_slots,
                            before_slots,
                            before_answers,
                            before_tasks,
                            before_inputs,
                            self.slots@,
                            answer,
                            self.polled_tasks@.last(),
                            input,
                            start_slots.len() as int,
                            start_answers.len() as int,
                            id,
                        );
                        assert(self.answers@[self.answers@.len() - 1] == (id, answer));
                        lemma_reached_after_take(
                            start_slots,
                            start_queue,
                            before_answers,
                            before_queue,
                            self.answers@,
                            self.queue@,
                            start_answers.len() as int,
                            id,
                        );
                        lemma_after_poll(
                            before_slots,
                            before_answers,
                            before_tasks,
                            before_queue,
                            self.slots@,
                            self.answers@,
                            self.polled_tasks@,
                            self.queue@,
                            start_slots.len() as int,
                            start_answers.len() as int,
                            id,
                        );
                        let sa = start_answers.len() as int;
                        assert(self.polled_tasks@.subrange(0, sa) =~= start_tasks) by {
                            assert forall|k: int| 0 <= k < sa implies self.polled_tasks@.subrange(
                                0,
                                sa,
                            )[k] == start_tasks[k] by {
                                assert(before_tasks.subrange(0, sa)[k] == start_tasks[k]);
                            }
                        }
                    }
                },
                None => {
                    self.slots.set(id, None);
                    proof {
                        lemma_after_skip(
                            before_slots,
                            self.answers@,
                            before_queue,
                            self.queue@,
                            start_answers.len() as int,
                            id,
                        );
                        assert(self.slots@ =~= before_slots);
                        assert(self.slots@.len() == self.slots.len());
                        let sa = start_answers.len() as int;
                        if start_slots[id as int] is Some {
                            assert(((id as int) as usize) == id);
                            if unanswered(self.answers@, sa, (id as int) as usize) {
                                assert(before_slots[id as int] == start_slots[id as int]);
                            }
                        }
                        lemma_reached_after_take(
                            start_slots,
                            start_queue,
                            self.answers@,
                            before_queue,
                            self.answers@,
                            self.queue@,
                            sa,
                            id,
                        );
                    }
                },
            }
        }
        proof {
            let s = start_taken.len() as int;
            let p = self.taken@.subrange(s, self.taken@.len() as int);
            if polled >= start_queue.len() {
                assert(p.len() >= start_queue.len());
                assert(self.taken@.subrange(s, s + start_queue.len()) =~= start_queue) by {
                    assert forall|k: int| 0 <= k < start_queue.len() implies self.taken@.subrange(
                        s,
                        s + start_queue.len(),
                    )[k] == start_queue[k] by {
                        assert((p + self.queue@)[k] == (start_queue + requeued)[k]);
                    }
                }
            }
        }
        polled
    }
}

} // verus!
