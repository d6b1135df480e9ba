//! The supervisor of tasks: the messages it takes and the decisions it makes on each of them.
//! Running the tasks, waiting on the requests and replying are left to the caller, which
//! performs the actions that `Supervision::step` returns.

use crate::mpsc::OutgoingMessage;
use vstd::prelude::*;

verus! {

/// A message to the supervisor.
#[derive(Debug, Clone, Copy, PartialEq, Eq, Structural)]
pub enum SystemMessage {
    Shutdown,
}

impl OutgoingMessage for SystemMessage {
    fn set_port(&mut self, _port: u8) {
    }
}

/// The reply to a request for a new task: the identifier of the task.
#[derive(Debug, Clone, Copy, PartialEq, Eq, Structural)]
pub struct TaskResponse(pub u128);

impl TaskResponse {
    pub fn uuid(&self) -> (r: u128)
        ensures
            r == self.0,
    {
        self.0
    }
}

/// The identifiers of the running tasks, each once.
#[derive(Debug)]
pub struct TaskTable {
    ids: Vec<u128>,
}

impl View for TaskTable {
    type V = Set<u128>;

    closed spec fn view(&self) -> Set<u128> {
        self.ids@.to_set()
    }
}

impl TaskTable {
    #[verifier::type_invariant]
    closed spec fn each_once(self) -> bool {
        self.ids@.no_duplicates()
    }

    /// The identifiers in the order the table keeps them.
    pub closed spec fn spec_ids(&self) -> Seq<u128> {
        self.ids@
    }

    pub fn new() -> (r: TaskTable)
        ensures
            r@ == Set::<u128>::empty(),
    {
        let r = TaskTable { ids: Vec::new() };
        assert(r.ids@.to_set() =~= Set::<u128>::empty());
        r
    }

    /// Whether the task `id` runs.
    pub fn contains(&self, id: u128) -> (r: bool)
        ensures
            r == self@.contains(id),
    {
        let n = self.ids.len();
        let mut i: usize = 0;
        while i < n
            invariant
                n == self.ids@.len(),
                i <= n,
                forall|j: int| 0 <= j < i ==> self.ids@[j] != id,
            decreases n - i,
        {
            if self.ids[i] == id {
                assert(self.ids@.contains(id));
                return true;
            }
            i = i + 1;
        }
        false
    }

    /// Records that the task `id` runs.
    pub fn insert(&mut self, id: u128)
        ensures
            final(self)@ == old(self)@.insert(id),
    {
        proof {
            use_type_invariant(&*self);
        }
        if !self.contains(id) {
            let mut t = TaskTable::new();
            std::mem::swap(self, &mut t);
            let TaskTable { ids: mut v } = t;
            let ghost before = v@;
            v.push(id);
            proof {
                assert(v@ =~= before.push(id));
                assert forall|a: int, b: int| 0 <= a < v@.len() && 0 <= b < v@.len() && a != b implies v@[a]
                    != v@[b] by {
                    if a == before.len() as int {
                        assert(before[b] != id);
                    } else if b == before.len() as int {
                        assert(before[a] != id);
                    }
                }
                assert forall|x: u128| v@.to_set().contains(x) <==> before.to_set().insert(id).contains(x) by {
                    if v@.contains(x) && x != id {
                        let a = choose|a: int| 0 <= a < v@.len() && v@[a] == x;
                        assert(a < before.len());
                        assert(before[a] == x);
                    }
                    if before.contains(x) {
                        let a = choose|a: int| 0 <= a < before.len() && before[a] == x;
                        assert(v@[a] == x);
                    }
                    if x == id {
                        assert(v@[before.len() as int] == x);
                    }
                }
                assert(v@.to_set() =~= before.to_set().insert(id));
            }
            *self = TaskTable { ids: v };
        } else {
            assert(old(self)@.insert(id) =~= old(self)@);
        }
    }

    /// Records that the task `id` no longer runs.
    pub fn remove(&mut self, id: u128)
        ensures
            final(self)@ == old(self)@.remove(id),
    {
        proof {
            use_type_invariant(&*self);
        }
        let n = self.ids.len();
        let mut i: usize = 0;
        while i < n && self.ids[i] != id
            invariant
                n == self.ids@.len(),
                i <= n,
                forall|j: int| 0 <= j < i ==> self.ids@[j] != id,
            decreases n - i,
        {
            i = i + 1;
        }
        if i < n {
            let mut t = TaskTable::new();
            std::mem::swap(self, &mut t);
            let TaskTable { ids: mut v } = t;
            let ghost before = v@;
            v.remove(i);
            proof {
                assert(v@ =~= before.remove(i as int));
                assert forall|a: int, b: int| 0 <= a < v@.len() && 0 <= b < v@.len() && a != b implies v@[a]
                    != v@[b] by {
                    let a0 = if a < i { a } else { a + 1 };
                    let b0 = if b < i { b } else { b + 1 };
                    assert(v@[a] == before[a0] && v@[b] == before[b0]);
                }
                assert forall|x: u128| v@.to_set().contains(x) <==> before.to_set().remove(id).contains(x) by {
                    if v@.contains(x) {
                        let a = choose|a: int| 0 <= a < v@.len() && v@[a] == x;
                        let a0 = if a < i { a } else { a + 1 };
                        assert(before[a0] == x);
                        assert(before[i as int] == id);
                        assert(x != id);
                        assert(before.contains(x));
                    }
                    if before.contains(x) && x != id {
                        let a0 = choose|a: int| 0 <= a < before.len() && before[a] == x;
                        assert(before[i as int] == id);
                        assert(a0 != i as int);
                        let a = if a0 < i { a0 } else { a0 - 1 };
                        assert(v@[a] == x);
                    }
                }
                assert(v@.to_set() =~= before.to_set().remove(id));
            }
            *self = TaskTable { ids: v };
        } else {
            proof {
                assert(!old(self)@.contains(id));
                assert(old(self)@.remove(id) =~= old(self)@);
            }
        }
    }

    /// The identifiers of the running tasks, in the order the table keeps them.
    pub fn ids(&self) -> (r: Vec<u128>)
        ensures
            r@ == self.spec_ids(),
            r@.to_set() == self@,
            r@.no_duplicates(),
    {
        proof {
            use_type_invariant(self);
        }
        self.ids.clone()
    }
}

/// What the supervisor is told.
#[derive(Debug, Clone, Copy, PartialEq, Eq, Structural)]
pub enum SupervisorEvent {
    /// A request for a new task, with the identifier that the task gets.
    Task(u128),
    /// A request to stop a task.
    Stop(u128),
    /// A request for the schemas of the services.
    Services,
    /// A request to stop every task and then the supervisor.
    Shutdown,
    /// A request that could not be received.
    RequestError,
    /// A task started running.
    TaskStarted(u128),
    /// A task ended.
    TaskFinished(u128),
    /// No more requests will come.
    RequestsClosed,
}

/// What the supervisor has to do.
#[derive(Debug, Clone, Copy, PartialEq, Eq, Structural)]
pub enum SupervisorAction {
    /// Run the task with this identifier and reply with the identifier.
    StartTask(u128),
    /// Send the stop signal to every node of a running task.
    StopTask(u128),
    /// Reply with the schemas of the services.
    ReplyServices,
    /// Tell the outside that the supervisor has shut down, and stop.
    Finish,
}

/// The state of the supervisor: the running tasks, and whether it waits for them to end
/// before it shuts down, or has finished.
#[derive(Debug)]
pub struct Supervision {
    tasks: TaskTable,
    shutting_down: bool,
    finished: bool,
}

/// The stop signals for the tasks `ids`, in that order.
pub open spec fn stop_all(ids: Seq<u128>) -> Seq<SupervisorAction> {
    Seq::new(ids.len(), |i: int| SupervisorAction::StopTask(ids[i]))
}

impl Supervision {
    pub closed spec fn spec_tasks(&self) -> Set<u128> {
        self.tasks@
    }

    pub closed spec fn spec_task_order(&self) -> Seq<u128> {
        self.tasks.spec_ids()
    }

    pub closed spec fn spec_shutting_down(&self) -> bool {
        self.shutting_down
    }

    pub closed spec fn spec_finished(&self) -> bool {
        self.finished
    }

    /// A supervisor with no task running.
    pub fn new() -> (r: Supervision)
        ensures
            r.spec_tasks() == Set::<u128>::empty(),
            !r.spec_shutting_down(),
            !r.spec_finished(),
    {
        Supervision { tasks: TaskTable::new(), shutting_down: false, finished: false }
    }

    /// Whether the supervisor has finished.
    pub fn is_finished(&self) -> (r: bool)
        ensures
            r == self.spec_finished(),
    {
        self.finished
    }

    /// The decision on one event: the actions to perform, in order.
    ///
    /// Once finished, nothing more is done. While it waits for the tasks to end, it only keeps
    /// track of them, and finishes when the last one ends. Otherwise: a new task is started; a
    /// running task is stopped on request (an unknown one is ignored); the schemas are sent on
    /// request; a shutdown stops every running task and finishes at once where none runs; a
    /// request that could not be received is ignored; started and ended tasks are kept track
    /// of; when no more requests come, it finishes.
    pub fn step(&mut self, e: SupervisorEvent) -> (r: Vec<SupervisorAction>)
        ensures
            old(self).spec_finished() ==> r@ == Seq::<SupervisorAction>::empty()
                && final(self).spec_finished() && final(self).spec_tasks() == old(self).spec_tasks(),
            !old(self).spec_finished() ==> match e {
                SupervisorEvent::TaskStarted(id) => {
                    &&& final(self).spec_tasks() == old(self).spec_tasks().insert(id)
                    &&& r@ == Seq::<SupervisorAction>::empty()
                    &&& final(self).spec_shutting_down() == old(self).spec_shutting_down()
                    &&& !final(self).spec_finished()
                },
                SupervisorEvent::TaskFinished(id) => {
                    &&& final(self).spec_tasks() == old(self).spec_tasks().remove(id)
                    &&& final(self).spec_shutting_down() == old(self).spec_shutting_down()
                    &&& if old(self).spec_shutting_down() && final(self).spec_tasks().is_empty() {
                        r@ == seq![SupervisorAction::Finish] && final(self).spec_finished()
                    } else {
                        r@ == Seq::<SupervisorAction>::empty() && !final(self).spec_finished()
                    }
                },
                _ => if old(self).spec_shutting_down() {
                    &&& r@ == Seq::<SupervisorAction>::empty()
                    &&& final(self).spec_tasks() == old(self).spec_tasks()
                    &&& final(self).spec_shutting_down()
                    &&& !final(self).spec_finished()
                } else {
                    &&& final(self).spec_tasks() == old(self).spec_tasks()
                    &&& match e {
                        SupervisorEvent::Task(id) => {
                            &&& r@ == seq![SupervisorAction::StartTask(id)]
                            &&& !final(self).spec_shutting_down()
                            &&& !final(self).spec_finished()
                        },
                        SupervisorEvent::Stop(id) => {
                            &&& r@ == if old(self).spec_tasks().contains(id) {
                                seq![SupervisorAction::StopTask(id)]
                            } else {
                                Seq::<SupervisorAction>::empty()
                            }
                            &&& !final(self).spec_shutting_down()
                            &&& !final(self).spec_finished()
                        },
                        SupervisorEvent::Services => {
                            &&& r@ == seq![SupervisorAction::ReplyServices]
                            &&& !final(self).spec_shutting_down()
                            &&& !final(self).spec_finished()
                        },
                        SupervisorEvent::Shutdown => if old(self).spec_tasks().is_empty() {
                            &&& r@ == seq![SupervisorAction::Finish]
                            &&& final(self).spec_finished()
                        } else {
                            &&& r@ == stop_all(old(self).spec_task_order())
                            &&& final(self).spec_shutting_down()
                            &&& !final(self).spec_finished()
                        },
                        SupervisorEvent::RequestsClosed => {
                            &&& r@ == seq![SupervisorAction::Finish]
                            &&& final(self).spec_finished()
                        },
                        _ => {
                            &&& r@ == Seq::<SupervisorAction>::empty()
                            &&& !final(self).spec_shutting_down()
                            &&& !final(self).spec_finished()
                        },
                    }
                },
            },
    {
        let mut r: Vec<SupervisorAction> = Vec::new();
        if self.finished {
            return r;
        }
        match e {
            SupervisorEvent::TaskStarted(id) => {
                self.tasks.insert(id);
            },
            SupervisorEvent::TaskFinished(id) => {
                self.tasks.remove(id);
                if self.shutting_down && self.tasks.ids().len() == 0 {
                    proof {
                        assert(self.tasks@.is_empty()) by {
                            assert(self.tasks@ =~= Set::<u128>::empty());
                        }
                    }
                    self.finished = true;
                    r.push(SupervisorAction::Finish);
                } else {
                    proof {
                        if self.shutting_down {
                            lemma_nonempty(self.tasks.spec_ids());
                        }
                    }
                }
            },
            _ => {
                if self.shutting_down {
                    return r;
                }
                match e {
                    SupervisorEvent::Task(id) => {
                        r.push(SupervisorAction::StartTask(id));
                    },
                    SupervisorEvent::Stop(id) => {
                        if self.tasks.contains(id) {
                            r.push(SupervisorAction::StopTask(id));
                        }
                    },
                    SupervisorEvent::Services => {
                        r.push(SupervisorAction::ReplyServices);
                    },
                    SupervisorEvent::Shutdown => {
                        let ids = self.tasks.ids();
                        if ids.len() == 0 {
                            proof {
                                assert(self.tasks@ =~= Set::<u128>::empty());
                            }
                            self.finished = true;
                            r.push(SupervisorAction::Finish);
                        } else {
                            proof {
                                lemma_nonempty(ids@);
                            }
                            let n = ids.len();
                            let mut i: usize = 0;
                            while i < n
                                invariant
                                    n == ids@.len(),
                                    i <= n,
                                    r@ == stop_all(ids@.take(i as int)),
                                decreases n - i,
                            {
                                r.push(SupervisorAction::StopTask(ids[i]));
                                i = i + 1;
                                proof {
                                    assert(r@ =~= stop_all(ids@.take(i as int)));
                                }
                            }
                            assert(ids@.take(n as int) =~= ids@);
                            self.shutting_down = true;
                        }
                    },
                    SupervisorEvent::RequestsClosed => {
                        self.finished = true;
                        r.push(SupervisorAction::Finish);
                    },
                    _ => {},
                }
            },
        }
        r
    }
}

/// A sequence with an element makes a set with that element.
proof fn lemma_nonempty(s: Seq<u128>)
    requires
        s.len() > 0,
    ensures
        !s.to_set().is_empty(),
{
    assert(s.to_set().contains(s[0]));
}

} // verus!
