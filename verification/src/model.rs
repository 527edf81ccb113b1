//! A model of threads that share one lock word, and the guarantees of the
//! protocols in it.
//!
//! A system is the word and what each thread is doing. A step is one atomic
//! operation of one thread, one call of a primitive, or the exit of a thread,
//! after which the kernel marks the word if the thread owned it and wakes one
//! waiter. A schedule is any sequence of steps. What is proved here is proved
//! for every schedule.

use vstd::prelude::*;
use crate::acquire::{lemma_install_names_the_thread, lemma_next_keeps_wf, AcquireState};
use crate::action::{event_of, word_after, Action, Event};
use crate::futex::{WaitError, WaitOutcome, WakeError};
use crate::release::{lemma_release_next_keeps_wf, ReleaseState};
use crate::word::{
    died_of, lemma_with_owner_died, lemma_with_waiters, lemma_word_of_thread, owner_of,
    valid_thread_id, waiters_of, with_owner_died, ThreadId, FUTEX_INIT,
};

verus! {

/// What a thread is doing.
pub enum Activity {
    /// Nothing that concerns the lock.
    Idle,
    /// It is acquiring. `parked` says whether it sleeps in the wait primitive.
    Acquiring { machine: AcquireState, parked: bool },
    /// It is in its critical section.
    Holding,
    /// It is releasing. `owns` says whether it called release as the holder.
    Releasing { release: ReleaseState, owns: bool },
    /// It has terminated.
    Exited,
}

/// The lock word and the threads that share it, each under its identifier.
pub struct System {
    pub word: u32,
    pub threads: Map<u32, Activity>,
}

/// One step of a schedule.
pub enum Step {
    /// An idle thread calls acquire.
    StartAcquire { tid: ThreadId },
    /// A thread calls release: from its critical section, or idle, by mistake.
    StartRelease { tid: ThreadId },
    /// A thread performs the atomic operation that its protocol asks for.
    Memory { thread: u32 },
    /// A thread calls the wait primitive: it sleeps if the word holds the
    /// expected value, and returns at once if not.
    Wait { thread: u32 },
    /// The wait primitive of a thread fails, asleep or not.
    WaitFails { thread: u32, error: WaitError },
    /// A sleeping thread wakes though no thread woke it.
    WakesAlone { thread: u32 },
    /// A thread calls the wake primitive, which wakes `target`.
    Wake { thread: u32, target: Option<u32> },
    /// The wake primitive of a thread fails.
    WakeFails { thread: u32, failure: WakeError },
    /// A thread runs the owner-failure recovery.
    Recover { thread: u32 },
    /// A thread returns from acquire or release.
    Finish { thread: u32 },
    /// A thread terminates; the kernel walks its robust list and, if the word
    /// names it as owner, marks the word and wakes `target`.
    Exit { thread: u32, target: Option<u32> },
}

impl System {
    /// The system in which nobody holds the lock and the threads of `ids` are idle.
    pub open spec fn init(ids: Set<u32>) -> System {
        System {
            word: FUTEX_INIT,
            threads: Map::new(|t: u32| ids.contains(t), |t: u32| Activity::Idle),
        }
    }

    /// Whether `t` sleeps in the wait primitive.
    pub open spec fn parked(self, t: u32) -> bool {
        &&& self.threads.dom().contains(t)
        &&& self.threads[t] matches Activity::Acquiring { parked, .. }
        &&& parked
    }

    /// Whether `t` takes itself for the holder: from the moment its
    /// compare-exchange succeeded until it has stored the free word.
    pub open spec fn holds(self, t: u32) -> bool {
        &&& self.threads.dom().contains(t)
        &&& match self.threads[t] {
            Activity::Acquiring { machine, .. } => machine.phase is Acquired,
            Activity::Holding => true,
            Activity::Releasing { release, owns } => owns && (release.phase is Checking
                || release.phase is Clearing),
            _ => false,
        }
    }

    /// Whether the kernel may wake `target`: a sleeping thread, or nobody when
    /// nobody sleeps.
    pub open spec fn may_wake(self, target: Option<u32>) -> bool {
        match target {
            Some(w) => self.parked(w),
            None => forall|u: u32| !self.parked(u),
        }
    }

    /// The threads after `target` has been woken.
    pub open spec fn woken(self, target: Option<u32>) -> Map<u32, Activity> {
        match target {
            Some(w) => match self.threads[w] {
                Activity::Acquiring { machine, .. } => self.threads.insert(
                    w,
                    Activity::Acquiring {
                        machine: machine.next(Event::WaitReturned(Ok(WaitOutcome::Woken))),
                        parked: false,
                    },
                ),
                _ => self.threads,
            },
            None => self.threads,
        }
    }

    /// The system with thread `t` doing `activity`.
    pub open spec fn with_thread(self, t: u32, activity: Activity) -> System {
        System { threads: self.threads.insert(t, activity), ..self }
    }

    /// The system after `step`. A step that the system does not allow changes
    /// nothing.
    pub open spec fn next(self, step: Step) -> System {
        match step {
            Step::StartAcquire { tid } => {
                if self.threads.dom().contains(tid@) && self.threads[tid@] is Idle {
                    self.with_thread(
                        tid@,
                        Activity::Acquiring { machine: AcquireState::start(tid), parked: false },
                    )
                } else {
                    self
                }
            },
            Step::StartRelease { tid } => {
                if self.threads.dom().contains(tid@) && (self.threads[tid@] is Idle
                    || self.threads[tid@] is Holding) {
                    self.with_thread(
                        tid@,
                        Activity::Releasing {
                            release: ReleaseState::start(tid),
                            owns: self.threads[tid@] is Holding,
                        },
                    )
                } else {
                    self
                }
            },
            Step::Memory { thread } => self.after_memory(thread),
            Step::Wait { thread } => self.after_wait(thread),
            Step::WaitFails { thread, error } => self.after_wait_failure(thread, error),
            Step::WakesAlone { thread } => if self.parked(thread) {
                System { word: self.word, threads: self.woken(Some(thread)) }
            } else {
                self
            },
            Step::Wake { thread, target } => self.after_wake(thread, target),
            Step::WakeFails { thread, failure } => self.after_wake_failure(thread, failure),
            Step::Recover { thread } => self.after_recovery(thread),
            Step::Finish { thread } => self.after_finish(thread),
            Step::Exit { thread, target } => self.after_exit(thread, target),
        }
    }

    /// The system after thread `t` performed its pending atomic operation.
    pub open spec fn after_memory(self, t: u32) -> System {
        if !self.threads.dom().contains(t) {
            self
        } else {
            match self.threads[t] {
                Activity::Acquiring { machine, parked } => match machine.pending() {
                    Action::Memory(op) => if parked {
                        self
                    } else {
                        System {
                            word: word_after(self.word, op),
                            threads: self.threads.insert(
                                t,
                                Activity::Acquiring {
                                    machine: machine.next(event_of(self.word, op)),
                                    parked: false,
                                },
                            ),
                        }
                    },
                    _ => self,
                },
                Activity::Releasing { release, owns } => match release.pending() {
                    Action::Memory(op) => System {
                        word: word_after(self.word, op),
                        threads: self.threads.insert(
                            t,
                            Activity::Releasing {
                                release: release.next(event_of(self.word, op)),
                                owns,
                            },
                        ),
                    },
                    _ => self,
                },
                _ => self,
            }
        }
    }

    /// The system after thread `t` called the wait primitive.
    pub open spec fn after_wait(self, t: u32) -> System {
        if !self.threads.dom().contains(t) {
            self
        } else {
            match self.threads[t] {
                Activity::Acquiring { machine, parked } => match machine.pending() {
                    Action::Wait { expected } => if parked {
                        self
                    } else if self.word == expected {
                        self.with_thread(t, Activity::Acquiring { machine, parked: true })
                    } else {
                        self.with_thread(
                            t,
                            Activity::Acquiring {
                                machine: machine.next(
                                    Event::WaitReturned(Ok(WaitOutcome::ValueChanged)),
                                ),
                                parked: false,
                            },
                        )
                    },
                    _ => self,
                },
                _ => self,
            }
        }
    }

    /// The system after the wait primitive of thread `t` failed.
    pub open spec fn after_wait_failure(self, t: u32, error: WaitError) -> System {
        if !self.threads.dom().contains(t) {
            self
        } else {
            match self.threads[t] {
                Activity::Acquiring { machine, parked } => match machine.pending() {
                    Action::Wait { .. } => self.with_thread(
                        t,
                        Activity::Acquiring {
                            machine: machine.next(Event::WaitReturned(Err(error))),
                            parked: false,
                        },
                    ),
                    _ => self,
                },
                _ => self,
            }
        }
    }

    /// The system after thread `t` called the wake primitive and the kernel
    /// woke `target`.
    pub open spec fn after_wake(self, t: u32, target: Option<u32>) -> System {
        if !self.threads.dom().contains(t) || !self.may_wake(target) {
            self
        } else {
            match self.threads[t] {
                Activity::Releasing { release, owns } => match release.pending() {
                    Action::WakeOne => System {
                        word: self.word,
                        threads: self.woken(target).insert(
                            t,
                            Activity::Releasing {
                                release: release.next(
                                    Event::WakeReturned(
                                        Ok(
                                            if target is Some {
                                                1u64
                                            } else {
                                                0u64
                                            },
                                        ),
                                    ),
                                ),
                                owns,
                            },
                        ),
                    },
                    _ => self,
                },
                _ => self,
            }
        }
    }

    /// The system after the wake primitive of thread `t` failed.
    pub open spec fn after_wake_failure(self, t: u32, error: WakeError) -> System {
        if !self.threads.dom().contains(t) {
            self
        } else {
            match self.threads[t] {
                Activity::Releasing { release, owns } => match release.pending() {
                    Action::WakeOne => self.with_thread(
                        t,
                        Activity::Releasing {
                            release: release.next(Event::WakeReturned(Err(error))),
                            owns,
                        },
                    ),
                    _ => self,
                },
                _ => self,
            }
        }
    }

    /// The system after thread `t` ran the recovery.
    pub open spec fn after_recovery(self, t: u32) -> System {
        if !self.threads.dom().contains(t) {
            self
        } else {
            match self.threads[t] {
                Activity::Acquiring { machine, parked } => match machine.pending() {
                    Action::Recover { .. } => self.with_thread(
                        t,
                        Activity::Acquiring { machine: machine.next(Event::Recovered), parked },
                    ),
                    _ => self,
                },
                _ => self,
            }
        }
    }

    /// The system after thread `t` returned from acquire or release.
    pub open spec fn after_finish(self, t: u32) -> System {
        if !self.threads.dom().contains(t) {
            self
        } else {
            match self.threads[t] {
                Activity::Acquiring { machine, .. } => match machine.pending() {
                    Action::Finished => self.with_thread(t, Activity::Holding),
                    Action::Failed(_) => self.with_thread(t, Activity::Idle),
                    _ => self,
                },
                Activity::Releasing { release, .. } => match release.pending() {
                    Action::Finished => self.with_thread(t, Activity::Idle),
                    Action::Failed(_) => self.with_thread(t, Activity::Idle),
                    _ => self,
                },
                _ => self,
            }
        }
    }

    /// The system after thread `t` terminated and the kernel walked its robust
    /// list: a word that names `t` as owner gets the owner-died bit, and
    /// `target` is woken.
    pub open spec fn after_exit(self, t: u32, target: Option<u32>) -> System {
        if !self.threads.dom().contains(t) || self.threads[t] is Exited {
            self
        } else {
            let gone = self.with_thread(t, Activity::Exited);
            if owner_of(self.word) != t {
                gone
            } else if gone.may_wake(target) {
                System { word: with_owner_died(self.word), threads: gone.woken(target) }
            } else {
                self
            }
        }
    }

    /// The system after the steps of `schedule`, in their order.
    pub open spec fn run(self, schedule: Seq<Step>) -> System
        decreases schedule.len(),
    {
        if schedule.len() == 0 {
            self
        } else {
            self.run(schedule.drop_last()).next(schedule.last())
        }
    }

    /// Whether `t` was woken and is on its way: it acquires, it has slept, and
    /// it neither sleeps now nor has reached the end of its acquire.
    pub open spec fn carries_wake(self, t: u32) -> bool {
        &&& self.threads.dom().contains(t)
        &&& self.threads[t] matches Activity::Acquiring { machine, parked }
        &&& !parked
        &&& machine.slept
        &&& !(machine.phase is Acquired)
        &&& !(machine.phase is Failed)
    }

    /// Whether `t` is about to store the free word.
    pub open spec fn clears_next(self, t: u32) -> bool {
        &&& self.threads.dom().contains(t)
        &&& self.threads[t] matches Activity::Releasing { release, .. }
        &&& release.phase is Clearing
    }

    /// Whether `t` is about to call the wake primitive.
    pub open spec fn wakes_next(self, t: u32) -> bool {
        &&& self.threads.dom().contains(t)
        &&& self.threads[t] matches Activity::Releasing { release, .. }
        &&& release.phase is Waking
    }

    /// Whether `b` answers for the threads that sleep: it holds the lock and
    /// the waiters bit is set, so that its release will wake; or it has stored
    /// the free word and its wake is due; or it was woken itself and will set
    /// the waiters bit before it sleeps again or when it takes the lock.
    pub open spec fn covers(self, b: u32) -> bool {
        ||| self.holds(b) && waiters_of(self.word)
        ||| self.wakes_next(b)
        ||| self.carries_wake(b)
    }

    /// Whether some thread answers for the threads that sleep.
    pub open spec fn covered(self) -> bool {
        exists|b: u32| #[trigger] self.covers(b)
    }

    /// Whether `step` drops a wake: the wake primitive fails; or a thread
    /// terminates after it has stored the free word and before it has woken
    /// the waiter; or a thread that was woken terminates, or gives up on a
    /// failed wait, before it holds the lock or sleeps again.
    pub open spec fn loses_wake(self, step: Step) -> bool {
        match step {
            Step::WakeFails { .. } => true,
            Step::WaitFails { thread, .. } => self.carries_wake(thread),
            Step::Exit { thread, .. } => self.wakes_next(thread) || self.carries_wake(thread),
            _ => false,
        }
    }

    /// Whether no step of `schedule` drops a wake.
    pub open spec fn wake_safe(self, schedule: Seq<Step>) -> bool
        decreases schedule.len(),
    {
        if schedule.len() == 0 {
            true
        } else {
            &&& self.wake_safe(schedule.drop_last())
            &&& !self.run(schedule.drop_last()).loses_wake(schedule.last())
        }
    }

    /// What holds of thread `t` in every system that a schedule reaches.
    pub open spec fn thread_inv(self, t: u32) -> bool {
        &&& valid_thread_id(t as int)
        &&& match self.threads[t] {
            Activity::Acquiring { machine, parked } => {
                &&& machine.tid@ == t
                &&& machine.wf()
                &&& parked ==> machine.phase is Waiting
            },
            Activity::Releasing { release, owns } => {
                &&& release.tid@ == t
                &&& release.wf()
                &&& !owns ==> release.phase is Checking || release.phase is Failed
            },
            _ => true,
        }
        &&& self.holds(t) ==> owner_of(self.word) == t && !died_of(self.word)
        &&& !(self.threads[t] is Exited) && owner_of(self.word) == t ==> self.holds(t)
    }

    /// What holds of every system that a schedule reaches: each thread's
    /// protocol state is its own and well-formed, a thread takes itself for the
    /// holder exactly if it lives and the word names it, and a word that names
    /// an owner without the owner-died bit names a thread that holds it.
    pub open spec fn inv(self) -> bool {
        &&& forall|t: u32| self.threads.dom().contains(t) ==> #[trigger] self.thread_inv(t)
        &&& owner_of(self.word) != 0 && !died_of(self.word) ==> self.holds(owner_of(self.word))
    }
}

/// The initial system satisfies the invariant.
pub proof fn lemma_init_inv(ids: Set<u32>)
    requires
        forall|t: u32| ids.contains(t) ==> valid_thread_id(t as int),
    ensures
        System::init(ids).inv(),
{
    let s = System::init(ids);
    assert(owner_of(FUTEX_INIT) == 0);
    assert forall|t: u32| s.threads.dom().contains(t) implies #[trigger] s.thread_inv(t) by {
        assert(s.threads[t] is Idle);
    }
}

/// Facts about the word operations that the proofs below rest on.
proof fn lemma_word_facts(word: u32)
    ensures
        owner_of(FUTEX_INIT) == 0,
        !died_of(FUTEX_INIT),
        !waiters_of(FUTEX_INIT),
        owner_of(crate::word::with_waiters(word)) == owner_of(word),
        died_of(crate::word::with_waiters(word)) == died_of(word),
        waiters_of(crate::word::with_waiters(word)),
        owner_of(with_owner_died(word)) == owner_of(word),
        waiters_of(with_owner_died(word)) == waiters_of(word),
        died_of(with_owner_died(word)),
{
    lemma_with_waiters(word);
    lemma_with_owner_died(word);
}

/// A start of acquire or release keeps the invariant.
proof fn lemma_start_keeps_inv(s: System, step: Step)
    requires
        s.inv(),
        step is StartAcquire || step is StartRelease,
    ensures
        s.next(step).inv(),
{
    let s2 = s.next(step);
    let t = match step {
        Step::StartAcquire { tid } => tid@,
        Step::StartRelease { tid } => tid@,
        _ => 0u32,
    };
    if s2 != s {
        assert(s.thread_inv(t));
        assert forall|u: u32| s2.threads.dom().contains(u) implies #[trigger] s2.thread_inv(u) by {
            assert(s.thread_inv(u));
        }
        if owner_of(s.word) != 0 && !died_of(s.word) {
            assert(s.thread_inv(owner_of(s.word)));
        }
    }
}

/// An atomic operation keeps the invariant.
proof fn lemma_memory_keeps_inv(s: System, t: u32)
    requires
        s.inv(),
    ensures
        s.after_memory(t).inv(),
{
    let s2 = s.after_memory(t);
    if s2 != s {
        lemma_word_facts(s.word);
        assert(s.thread_inv(t));
        lemma_word_of_thread(t);
        if owner_of(s.word) != 0 && !died_of(s.word) {
            assert(s.thread_inv(owner_of(s.word)));
        }
        match s.threads[t] {
            Activity::Acquiring { machine, parked } => {
                let op = machine.pending()->Memory_0;
                lemma_next_keeps_wf(machine, event_of(s.word, op));
                lemma_install_names_the_thread(machine, s.word);
            },
            Activity::Releasing { release, owns } => {
                let op = release.pending()->Memory_0;
                lemma_release_next_keeps_wf(release, event_of(s.word, op));
            },
            _ => {},
        }
        assert forall|u: u32| s2.threads.dom().contains(u) implies #[trigger] s2.thread_inv(u) by {
            assert(s.thread_inv(u));
        }
    }
}

/// A call of the wait primitive, a failure of it and a recovery keep the
/// invariant.
proof fn lemma_local_keeps_inv(s: System, step: Step)
    requires
        s.inv(),
        step is Wait || step is WaitFails || step is WakesAlone || step is WakeFails || step is Recover
            || step is Finish,
    ensures
        s.next(step).inv(),
{
    let s2 = s.next(step);
    let t = match step {
        Step::Wait { thread } => thread,
        Step::WaitFails { thread, .. } => thread,
        Step::WakesAlone { thread } => thread,
        Step::WakeFails { thread, .. } => thread,
        Step::Recover { thread } => thread,
        Step::Finish { thread } => thread,
        _ => 0u32,
    };
    if s2 != s {
        assert(s.thread_inv(t));
        match s.threads[t] {
            Activity::Acquiring { machine, parked } => {
                lemma_next_keeps_wf(machine, Event::WaitReturned(Ok(WaitOutcome::ValueChanged)));
                lemma_next_keeps_wf(machine, Event::WaitReturned(Ok(WaitOutcome::Woken)));
                lemma_next_keeps_wf(machine, Event::Recovered);
                if let Step::WaitFails { error, .. } = step {
                    lemma_next_keeps_wf(machine, Event::WaitReturned(Err(error)));
                }
            },
            Activity::Releasing { release, owns } => {
                if let Step::WakeFails { failure, .. } = step {
                    lemma_release_next_keeps_wf(release, Event::WakeReturned(Err(failure)));
                }
            },
            _ => {},
        }
        assert forall|u: u32| s2.threads.dom().contains(u) implies #[trigger] s2.thread_inv(u) by {
            assert(s.thread_inv(u));
        }
        if owner_of(s.word) != 0 && !died_of(s.word) {
            assert(s.thread_inv(owner_of(s.word)));
        }
    }
}

/// Waking a thread keeps what holds of each thread.
proof fn lemma_woken_keeps_threads(s: System, target: Option<u32>)
    requires
        forall|t: u32| s.threads.dom().contains(t) ==> #[trigger] s.thread_inv(t),
        s.may_wake(target),
    ensures
        ({
            let s2 = System { word: s.word, threads: s.woken(target) };
            &&& s2.threads.dom() == s.threads.dom()
            &&& forall|t: u32| s2.threads.dom().contains(t) ==> #[trigger] s2.thread_inv(t)
            &&& forall|t: u32| s2.holds(t) == s.holds(t)
            &&& forall|t: u32|
                s.threads.dom().contains(t) && Some(t) != target ==> s2.threads[t] == s.threads[t]
            &&& forall|t: u32| Some(t) == target ==> !s2.parked(t)
        }),
{
    let s2 = System { word: s.word, threads: s.woken(target) };
    match target {
        Some(w) => {
            assert(s.thread_inv(w));
            let machine = s.threads[w]->Acquiring_machine;
            lemma_next_keeps_wf(machine, Event::WaitReturned(Ok(WaitOutcome::Woken)));
            assert(s2.threads.dom() =~= s.threads.dom());
            assert forall|t: u32| s2.threads.dom().contains(t) implies #[trigger] s2.thread_inv(
                t,
            ) by {
                assert(s.thread_inv(t));
            }
        },
        None => {
            assert(s2.threads == s.threads);
        },
    }
}

/// A call of the wake primitive keeps the invariant.
proof fn lemma_wake_keeps_inv(s: System, t: u32, target: Option<u32>)
    requires
        s.inv(),
    ensures
        s.after_wake(t, target).inv(),
{
    let s2 = s.after_wake(t, target);
    if s2 != s {
        lemma_woken_keeps_threads(s, target);
        let mid = System { word: s.word, threads: s.woken(target) };
        assert(s.thread_inv(t));
        assert(mid.thread_inv(t));
        assert(Some(t) != target);
        let release = s.threads[t]->Releasing_release;
        lemma_release_next_keeps_wf(
            release,
            Event::WakeReturned(Ok(if target is Some { 1u64 } else { 0u64 })),
        );
        assert forall|u: u32| s2.threads.dom().contains(u) implies #[trigger] s2.thread_inv(u) by {
            assert(mid.thread_inv(u));
            assert(mid.holds(u) == s.holds(u));
        }
        if owner_of(s.word) != 0 && !died_of(s.word) {
            assert(s.thread_inv(owner_of(s.word)));
            assert(mid.holds(owner_of(s.word)));
        }
    }
}

/// What the exit of the thread that the word names leaves: the word with the
/// owner-died bit, the thread gone, the thread woken awake and carrying the
/// wake, every other thread as it was, and the invariant.
proof fn lemma_exit_frame(s: System, t: u32, target: Option<u32>)
    requires
        s.inv(),
        s.after_exit(t, target) != s,
        owner_of(s.word) == t,
    ensures
        ({
            let s2 = s.after_exit(t, target);
            let gone = s.with_thread(t, Activity::Exited);
            &&& gone.may_wake(target)
            &&& forall|u: u32| gone.parked(u) == (u != t && s.parked(u))
            &&& s2.word == with_owner_died(s.word)
            &&& s2.threads.dom() == s.threads.dom()
            &&& s2.threads[t] is Exited || Some(t) == target
            &&& forall|u: u32|
                s.threads.dom().contains(u) && u != t && Some(u) != target ==> s2.threads[u]
                    == s.threads[u]
            &&& forall|u: u32| s2.parked(u) ==> s.parked(u)
            &&& target matches Some(w) ==> s.parked(w) && s2.carries_wake(w)
            &&& forall|u: u32| s2.holds(u) == (u != t && s.holds(u))
            &&& s2.inv()
        }),
{
    lemma_word_facts(s.word);
    assert(s.thread_inv(t));
    let gone = s.with_thread(t, Activity::Exited);
    let marked = System { word: with_owner_died(s.word), threads: gone.threads };
    assert forall|u: u32| gone.threads.dom().contains(u) implies #[trigger] gone.thread_inv(
        u,
    ) by {
        assert(s.thread_inv(u));
    }
    assert forall|u: u32| marked.threads.dom().contains(u) implies #[trigger] marked.thread_inv(
        u,
    ) by {
        assert(gone.thread_inv(u));
        assert(s.thread_inv(u));
    }
    assert(forall|u: u32| marked.parked(u) == gone.parked(u));
    assert(marked.may_wake(target));
    lemma_woken_keeps_threads(marked, target);
    lemma_woken_carries(marked, target);
    assert(marked.threads.dom() =~= s.threads.dom());
    let s2 = s.after_exit(t, target);
    assert forall|u: u32| s2.holds(u) == (u != t && s.holds(u)) by {
        assert(marked.holds(u) == (u != t && s.holds(u)));
    }
}

/// The exit of a thread keeps the invariant.
proof fn lemma_exit_keeps_inv(s: System, t: u32, target: Option<u32>)
    requires
        s.inv(),
    ensures
        s.after_exit(t, target).inv(),
{
    let s2 = s.after_exit(t, target);
    if s2 != s {
        if owner_of(s.word) == t {
            lemma_exit_frame(s, t, target);
        } else {
            assert(s.thread_inv(t));
            if owner_of(s.word) != 0 && !died_of(s.word) {
                assert(s.thread_inv(owner_of(s.word)));
            }
            assert forall|u: u32| s2.threads.dom().contains(u) implies #[trigger] s2.thread_inv(
                u,
            ) by {
                assert(s.thread_inv(u));
            }
        }
    }
}

/// Every step keeps the invariant.
pub proof fn lemma_step_keeps_inv(s: System, step: Step)
    requires
        s.inv(),
    ensures
        s.next(step).inv(),
{
    match step {
        Step::StartAcquire { .. } | Step::StartRelease { .. } => lemma_start_keeps_inv(s, step),
        Step::Memory { thread } => lemma_memory_keeps_inv(s, thread),
        Step::Wake { thread, target } => lemma_wake_keeps_inv(s, thread, target),
        Step::Exit { thread, target } => lemma_exit_keeps_inv(s, thread, target),
        _ => lemma_local_keeps_inv(s, step),
    }
}

/// Every system that a schedule reaches from one that satisfies the invariant
/// satisfies it.
pub proof fn lemma_run_keeps_inv(s: System, schedule: Seq<Step>)
    requires
        s.inv(),
    ensures
        s.run(schedule).inv(),
    decreases schedule.len(),
{
    if schedule.len() > 0 {
        lemma_run_keeps_inv(s, schedule.drop_last());
        lemma_step_keeps_inv(s.run(schedule.drop_last()), schedule.last());
    }
}

/// Mutual exclusion: whatever the schedule, at most one thread takes itself for
/// the holder of the lock, and the word names that thread as owner.
pub proof fn lemma_mutual_exclusion(ids: Set<u32>, schedule: Seq<Step>, a: u32, b: u32)
    requires
        forall|t: u32| ids.contains(t) ==> valid_thread_id(t as int),
        System::init(ids).run(schedule).holds(a),
        System::init(ids).run(schedule).holds(b),
    ensures
        a == b,
        owner_of(System::init(ids).run(schedule).word) == a,
{
    lemma_init_inv(ids);
    lemma_run_keeps_inv(System::init(ids), schedule);
    let s = System::init(ids).run(schedule);
    assert(s.thread_inv(a));
    assert(s.thread_inv(b));
}

/// What a step that wakes leaves of the threads: the thread woken is one that
/// slept, it sleeps no more and carries the wake, and no other thread has
/// changed.
proof fn lemma_woken_carries(s: System, target: Option<u32>)
    requires
        forall|t: u32| s.threads.dom().contains(t) ==> #[trigger] s.thread_inv(t),
        s.may_wake(target),
    ensures
        ({
            let s2 = System { word: s.word, threads: s.woken(target) };
            &&& target matches Some(w) ==> s.parked(w) && s2.carries_wake(w)
            &&& target is None ==> forall|u: u32| !s.parked(u)
            &&& forall|u: u32| s2.parked(u) ==> s.parked(u)
        }),
{
    lemma_woken_keeps_threads(s, target);
    match target {
        Some(w) => {
            assert(s.thread_inv(w));
        },
        None => {},
    }
}

/// One step keeps the sleepers covered, among any number of threads.
proof fn lemma_step_keeps_cover(s: System, step: Step, a: u32)
    requires
        s.inv(),
        forall|c: u32| s.parked(c) ==> s.covered(),
        !s.loses_wake(step),
        s.next(step).parked(a),
    ensures
        s.next(step).covered(),
{
    let s2 = s.next(step);
    lemma_step_keeps_inv(s, step);
    lemma_word_facts(s.word);
    if owner_of(s.word) != 0 && !died_of(s.word) {
        assert(s.thread_inv(owner_of(s.word)));
    }
    if s2 == s {
        let b = choose|b: u32| #[trigger] s.covers(b);
        assert(s2.covers(b));
    } else if !s.parked(a) {
        // Only the call of the wait primitive puts a thread to sleep, and only
        // on a word that names a living holder and has the waiters bit set.
        assert(s.thread_inv(a));
        match step {
            Step::Wait { thread } => {
                assert(thread == a);
                assert(s2.covers(owner_of(s.word)));
            },
            Step::Wake { thread, target } => {
                lemma_woken_carries(s, target);
            },
            Step::Exit { thread, target } => {
                if owner_of(s.word) == thread {
                    lemma_exit_frame(s, thread, target);
                }
            },
            Step::WakesAlone { thread } => {
                if s.parked(thread) {
                    lemma_woken_carries(s, Some(thread));
                }
            },
            _ => {},
        }
    } else {
        let b = choose|b: u32| #[trigger] s.covers(b);
        assert(s.thread_inv(a));
        assert(s.thread_inv(b));
        assert(b != a);
        match step {
            Step::Wake { thread, target } => {
                // The wake reaches a sleeper, who carries it on.
                assert(s.thread_inv(thread));
                lemma_woken_carries(s, target);
                assert(target is Some);
                assert(s2.threads[target.unwrap()] == System {
                    word: s.word,
                    threads: s.woken(target),
                }.threads[target.unwrap()]);
                assert(s2.covers(target.unwrap()));
            },
            Step::Exit { thread, target } => {
                assert(s.thread_inv(thread));
                if owner_of(s.word) == thread {
                    // The kernel wakes a sleeper for the holder that terminates.
                    lemma_exit_frame(s, thread, target);
                    assert(s.with_thread(thread, Activity::Exited).parked(a));
                    assert(target is Some);
                    assert(s2.covers(target.unwrap()));
                } else {
                    assert(thread != b);
                    assert(s2.threads[b] == s.threads[b]);
                    assert(s2.covers(b));
                }
            },
            Step::WakesAlone { thread } => {
                lemma_woken_carries(s, Some(thread));
                assert(s2.covers(thread));
            },
            Step::Memory { thread } => {
                assert(s.thread_inv(thread));
                lemma_word_of_thread(thread);
                match s.threads[thread] {
                    Activity::Acquiring { machine, .. } => {
                        lemma_install_names_the_thread(machine, s.word);
                        lemma_next_keeps_wf(
                            machine,
                            event_of(s.word, machine.pending()->Memory_0),
                        );
                    },
                    _ => {},
                }
                if thread != b {
                    assert(s2.threads[b] == s.threads[b]);
                }
                assert(s2.covers(b));
            },
            Step::StartAcquire { tid } => {
                assert(s.thread_inv(tid@));
                assert(s2.covers(b));
            },
            Step::StartRelease { tid } => {
                assert(s.thread_inv(tid@));
                assert(s2.covers(b));
            },
            Step::Wait { thread } => {
                assert(s.thread_inv(thread));
                if thread == b && s2.parked(b) {
                    assert(s2.covers(owner_of(s.word)));
                } else {
                    assert(s2.covers(b));
                }
            },
            Step::WaitFails { thread, .. } => {
                assert(s2.covers(b));
            },
            Step::WakeFails { .. } => {},
            Step::Recover { thread } => {
                assert(s2.covers(b));
            },
            Step::Finish { thread } => {
                assert(s.thread_inv(thread));
                assert(s2.covers(b));
            },
        }
    }
}

/// No lost wake, among any number of threads: whatever the schedule, as long
/// as no step drops a wake, a thread sleeps in the wait primitive only while
/// some thread answers for it: one that holds the lock with the waiters bit
/// set, whose release will wake; one that has stored the free word and is about
/// to wake; or one that was woken and will hand the waiters bit on.
pub proof fn lemma_no_lost_wake(ids: Set<u32>, schedule: Seq<Step>, a: u32)
    requires
        forall|t: u32| ids.contains(t) ==> valid_thread_id(t as int),
        System::init(ids).wake_safe(schedule),
        System::init(ids).run(schedule).parked(a),
    ensures
        System::init(ids).run(schedule).covered(),
    decreases schedule.len(),
{
    let init = System::init(ids);
    lemma_init_inv(ids);
    if schedule.len() > 0 {
        let before = init.run(schedule.drop_last());
        lemma_run_keeps_inv(init, schedule.drop_last());
        assert forall|c: u32| before.parked(c) implies before.covered() by {
            lemma_no_lost_wake(ids, schedule.drop_last(), c);
        }
        lemma_step_keeps_cover(before, schedule.last(), a);
    }
}

/// Each of the three that answer for the sleepers passes the wake on. The
/// holder's release finds the waiters bit and asks for the wake. The wake
/// reaches a sleeper whenever there is one, and that thread sleeps no more and
/// carries the wake. And a thread that carries the wake stores the waiters bit
/// with its identifier when it takes the lock.
pub proof fn lemma_wake_is_passed_on(s: System, b: u32, a: u32, target: Option<u32>)
    requires
        s.inv(),
        s.parked(a),
        s.covers(b),
    ensures
        s.holds(b) && waiters_of(s.word) && s.clears_next(b) ==> s.next(
            Step::Memory { thread: b },
        ).wakes_next(b),
        s.wakes_next(b) && s.may_wake(target) ==> target is Some && s.parked(target.unwrap())
            && s.next(Step::Wake { thread: b, target }).carries_wake(target.unwrap()),
        s.carries_wake(b) && s.next(Step::Memory { thread: b }).holds(b) ==> waiters_of(
            s.next(Step::Memory { thread: b }).word,
        ),
{
    lemma_word_facts(s.word);
    assert(s.thread_inv(b));
    assert(s.thread_inv(a));
    if s.wakes_next(b) && s.may_wake(target) {
        lemma_woken_carries(s, target);
        assert(target is Some);
        let w = target.unwrap();
        assert(w != b);
        let s2 = s.next(Step::Wake { thread: b, target });
        assert(s2.threads[w] == System { word: s.word, threads: s.woken(target) }.threads[w]);
    }
    if s.carries_wake(b) {
        let machine = s.threads[b]->Acquiring_machine;
        lemma_install_names_the_thread(machine, s.word);
    }
}

/// Owner death is visible: when the holder terminates, the kernel sets the
/// owner-died bit in the word, which still names the dead thread, and wakes a
/// sleeper if there is one; no thread holds the lock then.
pub proof fn lemma_owner_death_marks_word(s: System, t: u32, target: Option<u32>)
    requires
        s.inv(),
        s.holds(t),
        s.with_thread(t, Activity::Exited).may_wake(target),
    ensures
        died_of(s.after_exit(t, target).word),
        owner_of(s.after_exit(t, target).word) == t,
        s.after_exit(t, target).threads[t] is Exited,
        target matches Some(w) ==> !s.after_exit(t, target).parked(w),
        forall|u: u32| !s.after_exit(t, target).holds(u),
{
    let s2 = s.after_exit(t, target);
    lemma_word_facts(s.word);
    assert(s.thread_inv(t));
    lemma_exit_frame(s, t, target);
    assert forall|u: u32| !s2.holds(u) by {
        if s.holds(u) {
            assert(s.thread_inv(u));
        }
    }
}

/// The lock of a dead owner passes on only after the recovery: a step that
/// takes the owner-died bit out of the word is the compare-exchange of a thread
/// that has run the recovery for the owner that the word named, and with it
/// that thread holds the lock.
pub proof fn lemma_dead_owner_lock_passes_after_recovery(s: System, step: Step)
    requires
        s.inv(),
        died_of(s.word),
        !died_of(s.next(step).word),
    ensures
        step is Memory,
        s.threads[step->Memory_thread] matches Activity::Acquiring { machine, .. }
            && machine.recovered == Some(owner_of(s.word)),
        s.next(step).holds(step->Memory_thread),
        owner_of(s.next(step).word) == step->Memory_thread,
{
    lemma_word_facts(s.word);
    match step {
        Step::Memory { thread } => {
            assert(s.thread_inv(thread));
            lemma_word_of_thread(thread);
            if s.threads[thread] is Acquiring {
                lemma_install_names_the_thread(s.threads[thread]->Acquiring_machine, s.word);
            }
        },
        _ => {},
    }
}

/// Release by a thread that does not hold the lock leaves the word unchanged
/// and fails: the one operation that such a release performs is the load, and
/// after it the release has failed with `NotOwnerError`.
pub proof fn lemma_release_by_non_holder_changes_nothing(s: System, tid: ThreadId)
    requires
        s.inv(),
        s.threads.dom().contains(tid@),
        s.threads[tid@] is Idle,
    ensures
        ({
            let called = s.next(Step::StartRelease { tid });
            let checked = called.next(Step::Memory { thread: tid@ });
            &&& called.word == s.word
            &&& checked.word == s.word
            &&& checked.threads[tid@] matches Activity::Releasing { release, .. }
                && release.phase is Failed && release.phase->error is NotOwner
            &&& checked.next(Step::Memory { thread: tid@ }) == checked
        }),
{
    assert(s.thread_inv(tid@));
    lemma_step_keeps_inv(s, Step::StartRelease { tid });
    let called = s.next(Step::StartRelease { tid });
    assert(called.thread_inv(tid@));
}

/// A thread that called release without holding the lock never writes the
/// word, whatever the other threads did in between.
pub proof fn lemma_non_holder_never_writes(s: System, t: u32)
    requires
        s.inv(),
        s.threads.dom().contains(t),
        s.threads[t] matches Activity::Releasing { owns, .. } && !owns,
    ensures
        s.next(Step::Memory { thread: t }).word == s.word,
        s.next(Step::Memory { thread: t }).threads[t] matches Activity::Releasing { release, .. }
            && release.phase is Failed,
{
    assert(s.thread_inv(t));
}

} // verus!
