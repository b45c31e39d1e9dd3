//! The state of the one simulation that is active, its status, and how it is stopped.
//!
//! Stopping alternates decisions and work of the host. Each decision is a step for the host to
//! do; the host answers with a reply, and the reply decides the next step.

use vstd::prelude::*;
use crate::fault::Fault;
use crate::path;
use crate::path::{Parts, RelPath};
use crate::text::Text;
use crate::workspace;

verus! {

/// What the host answers once it has done a step.
#[derive(Debug, PartialEq, Eq)]
pub enum Reply<T = String> {
    /// It is so, or it is done.
    Yes,
    /// It is not so.
    No,
    /// A process runs, with this number.
    Started { pid: u32 },
    /// The number of the own process, and the nanoseconds since the epoch.
    Now { process: u32, nanos: u128 },
    /// It failed, and the system said this of it.
    Failed { error: T },
}

impl View for Reply {
    type V = Reply<Text>;

    open spec fn view(&self) -> Reply<Text> {
        match *self {
            Reply::Yes => Reply::Yes,
            Reply::No => Reply::No,
            Reply::Started { pid } => Reply::Started { pid },
            Reply::Now { process, nanos } => Reply::Now { process, nanos },
            Reply::Failed { error } => Reply::Failed { error: error@ },
        }
    }
}

/// A step of stopping, for the host to do.
#[derive(Debug, PartialEq, Eq)]
pub enum StopStep<P = RelPath, T = String> {
    /// Ask whether the child has ended: `Yes`, `No` or `Failed`.
    Poll,
    /// End the child: `Yes` or `Failed`.
    Kill,
    /// Wait for the end of the child: `Yes` or `Failed`.
    Wait,
    /// Try to end the child and to wait for it, after the question for its state had failed with
    /// this error: `Yes` or `Failed`.
    Abandon { error: T },
    /// Ask whether the directory exists: `Yes` or `No`.
    Check { dir: P },
    /// Remove the directory with all it holds: `Yes` or `Failed`.
    Remove { dir: P },
    /// Remove the directory of the games if it is empty: `Yes` or `Failed`.
    RemoveGames,
    /// Remove the directory of the application if it is empty: `Yes` or `Failed`.
    RemoveRoot,
}

impl View for StopStep {
    type V = StopStep<Parts, Text>;

    open spec fn view(&self) -> StopStep<Parts, Text> {
        match *self {
            StopStep::Poll => StopStep::Poll,
            StopStep::Kill => StopStep::Kill,
            StopStep::Wait => StopStep::Wait,
            StopStep::Abandon { error } => StopStep::Abandon { error: error@ },
            StopStep::Check { dir } => StopStep::Check { dir: dir@ },
            StopStep::Remove { dir } => StopStep::Remove { dir: dir@ },
            StopStep::RemoveGames => StopStep::RemoveGames,
            StopStep::RemoveRoot => StopStep::RemoveRoot,
        }
    }
}

/// What follows a reply while a simulation is stopped.
#[derive(Debug, PartialEq, Eq)]
pub enum StopProgress<P = RelPath, T = String> {
    /// The host does this step next.
    Next { step: StopStep<P, T> },
    /// The simulation has been stopped.
    Finished,
    /// Stopping has failed.
    Refused { fault: Fault<P, T> },
}

impl View for StopProgress {
    type V = StopProgress<Parts, Text>;

    open spec fn view(&self) -> StopProgress<Parts, Text> {
        match *self {
            StopProgress::Next { step } => StopProgress::Next { step: step@ },
            StopProgress::Finished => StopProgress::Finished,
            StopProgress::Refused { fault } => StopProgress::Refused { fault: fault@ },
        }
    }
}

/// The status of the simulation, as callers see it. The path of the executable stands below the
/// temporary directory.
#[derive(Debug, PartialEq, Eq)]
pub struct SimulationStatus<P = RelPath, T = String> {
    pub active: bool,
    pub pid: Option<u32>,
    pub target_name: Option<T>,
    pub executable_path: Option<P>,
}

/// The content of an optional text.
pub open spec fn text_view(s: Option<String>) -> Option<Text> {
    match s {
        Some(s) => Some(s@),
        None => None,
    }
}

/// The parts of an optional path.
pub open spec fn path_view(p: Option<RelPath>) -> Option<Parts> {
    match p {
        Some(p) => Some(p@),
        None => None,
    }
}

impl View for SimulationStatus {
    type V = SimulationStatus<Parts, Text>;

    open spec fn view(&self) -> SimulationStatus<Parts, Text> {
        SimulationStatus {
            active: self.active,
            pid: self.pid,
            target_name: text_view(self.target_name),
            executable_path: path_view(self.executable_path),
        }
    }
}

/// The simulation that is active, if any: the number of its process, the name of its target, and
/// the paths of its executable and its directory below the temporary directory.
#[derive(Debug, PartialEq, Eq)]
pub struct SimulationManager<P = RelPath, T = String> {
    pub child: Option<u32>,
    pub target_name: Option<T>,
    pub executable_path: Option<P>,
    pub work_dir: Option<P>,
}

impl View for SimulationManager {
    type V = SimulationManager<Parts, Text>;

    open spec fn view(&self) -> SimulationManager<Parts, Text> {
        SimulationManager {
            child: self.child,
            target_name: text_view(self.target_name),
            executable_path: path_view(self.executable_path),
            work_dir: path_view(self.work_dir),
        }
    }
}

impl StopStep<Parts, Text> {
    /// Whether a reply answers the step.
    pub open spec fn is_answered_by(self, reply: Reply<Text>) -> bool {
        match self {
            StopStep::Poll => reply is Yes || reply is No || reply is Failed,
            StopStep::Check { .. } => reply is Yes || reply is No,
            _ => reply is Yes || reply is Failed,
        }
    }

    /// How many steps can follow at most.
    pub open spec fn steps_left(self) -> nat {
        match self {
            StopStep::Poll => 6,
            StopStep::Kill => 5,
            StopStep::Wait => 4,
            StopStep::Check { .. } => 3,
            StopStep::Remove { .. } => 2,
            StopStep::RemoveGames => 1,
            StopStep::RemoveRoot => 0,
            StopStep::Abandon { .. } => 0,
        }
    }

    /// Steps that touch no directory but those of the application.
    pub open spec fn wf(self) -> bool {
        match self {
            StopStep::Check { dir } => workspace::is_work_dir(dir),
            StopStep::Remove { dir } => workspace::is_work_dir(dir),
            _ => true,
        }
    }
}

impl SimulationManager<Parts, Text> {
    /// The state without a simulation.
    pub open spec fn empty() -> Self {
        SimulationManager { child: None, target_name: None, executable_path: None, work_dir: None }
    }

    /// States of the application: the directory of the simulation lies where such directories
    /// lie, a child has a target, an executable and a directory, and its executable lies in its
    /// directory.
    pub open spec fn wf(self) -> bool {
        &&& self.work_dir matches Some(dir) ==> workspace::is_work_dir(dir)
        &&& self.executable_path matches Some(file) ==> path::is_confined(file)
        &&& self.child is Some ==> self.work_dir is Some
        &&& self.work_dir matches Some(dir) ==> {
            &&& self.target_name is Some
            &&& self.executable_path matches Some(file)
            &&& dir.len() < file.len()
            &&& file.take(dir.len() as int) == dir
        }
    }

    /// States in which a step of stopping is to be done: the child has been given up already, and
    /// the directory too where its turn has come.
    pub open spec fn is_stopping(self, step: StopStep<Parts, Text>) -> bool {
        &&& self.wf()
        &&& step.wf()
        &&& self.child is None
        &&& match step {
            StopStep::Check { .. } | StopStep::Remove { .. } => self.work_dir is None,
            StopStep::RemoveGames | StopStep::RemoveRoot => self.work_dir is None,
            _ => true,
        }
    }

    /// The state once the host has said whether the child has ended.
    pub open spec fn polled(self, reply: Reply<Text>) -> Self {
        if reply is Yes {
            SimulationManager { child: None, ..self }
        } else {
            self
        }
    }

    /// The status of the state.
    pub open spec fn shown(self) -> SimulationStatus<Parts, Text> {
        SimulationStatus {
            active: self.child is Some,
            pid: self.child,
            target_name: self.target_name,
            executable_path: self.executable_path,
        }
    }

    /// The state and the step once the child is done with: the directory comes next, where there
    /// is one, and then the directories above it.
    pub open spec fn released(self) -> (Self, StopStep<Parts, Text>) {
        match self.work_dir {
            Some(dir) => (SimulationManager { work_dir: None, ..self }, StopStep::Check { dir }),
            None => (self, StopStep::RemoveGames),
        }
    }

    /// The state and the first step of stopping.
    pub open spec fn stop_begun(self) -> (Self, StopStep<Parts, Text>) {
        if self.child is Some {
            (SimulationManager { child: None, ..self }, StopStep::Poll)
        } else {
            self.released()
        }
    }

    /// The state after a reply to a step of stopping, and what follows. A reply that does not
    /// answer the step changes nothing, and the step is still to be done.
    pub open spec fn stop_after(
        self,
        step: StopStep<Parts, Text>,
        reply: Reply<Text>,
    ) -> (Self, StopProgress<Parts, Text>) {
        if !step.is_answered_by(reply) {
            (self, StopProgress::Next { step })
        } else {
            match (step, reply) {
                (StopStep::Poll, Reply::No) => (self, StopProgress::Next { step: StopStep::Kill }),
                (StopStep::Poll, Reply::Failed { error }) => (
                    self,
                    StopProgress::Next { step: StopStep::Abandon { error } },
                ),
                (StopStep::Abandon { error }, _) => (
                    self,
                    StopProgress::Refused { fault: Fault::QueryChild { error } },
                ),
                (StopStep::Kill, Reply::Failed { error }) => (
                    self,
                    StopProgress::Refused { fault: Fault::KillChild { error } },
                ),
                (StopStep::Kill, _) => (self, StopProgress::Next { step: StopStep::Wait }),
                (StopStep::Poll, _) | (StopStep::Wait, _) => (
                    self.released().0,
                    StopProgress::Next { step: self.released().1 },
                ),
                (StopStep::Check { dir }, Reply::Yes) => (
                    self,
                    StopProgress::Next { step: StopStep::Remove { dir } },
                ),
                (StopStep::Remove { dir }, Reply::Failed { error }) => (
                    self,
                    StopProgress::Refused { fault: Fault::RemoveWorkDir { dir, error } },
                ),
                (StopStep::Check { .. }, _) | (StopStep::Remove { .. }, _) => (
                    self,
                    StopProgress::Next { step: StopStep::RemoveGames },
                ),
                (StopStep::RemoveGames, _) => (
                    self,
                    StopProgress::Next { step: StopStep::RemoveRoot },
                ),
                (StopStep::RemoveRoot, _) => (
                    SimulationManager { target_name: None, executable_path: None, ..self },
                    StopProgress::Finished,
                ),
            }
        }
    }
}

fn copy_text(s: &Option<String>) -> (r: Option<String>)
    ensures
        text_view(r) == text_view(*s),
{
    match s {
        Some(s) => Some(s.clone()),
        None => None,
    }
}

fn copy_path(p: &Option<RelPath>) -> (r: Option<RelPath>)
    ensures
        path_view(r) == path_view(*p),
{
    match p {
        Some(p) => Some(p.duplicate()),
        None => None,
    }
}

impl Default for SimulationManager {
    /// The state without a simulation.
    fn default() -> (r: SimulationManager)
        ensures
            r@ == SimulationManager::<Parts, Text>::empty(),
            r@.wf(),
    {
        SimulationManager { child: None, target_name: None, executable_path: None, work_dir: None }
    }
}

impl SimulationManager {
    /// The status, once the host has said whether the child has ended; what it says where there
    /// is no child makes no difference.
    pub fn status(&mut self, polled: &Reply) -> (r: SimulationStatus)
        ensures
            final(self)@ == old(self)@.polled(polled@),
            r@ == final(self)@.shown(),
            old(self)@.wf() ==> final(self)@.wf(),
    {
        if matches!(polled, Reply::Yes) {
            self.child = None;
        }
        SimulationStatus {
            active: self.child.is_some(),
            pid: self.child,
            target_name: copy_text(&self.target_name),
            executable_path: copy_path(&self.executable_path),
        }
    }

    fn release(&mut self) -> (step: StopStep)
        ensures
            (final(self)@, step@) == old(self)@.released(),
    {
        match self.work_dir.take() {
            Some(dir) => StopStep::Check { dir },
            None => StopStep::RemoveGames,
        }
    }

    /// Begins to stop the simulation: the first step for the host to do.
    pub fn stop_active(&mut self) -> (step: StopStep)
        ensures
            (final(self)@, step@) == old(self)@.stop_begun(),
            old(self)@.wf() ==> final(self)@.is_stopping(step@),
    {
        if self.child.is_some() {
            self.child = None;
            StopStep::Poll
        } else {
            self.release()
        }
    }

    /// Begins to stop the simulation at the request of a user. Where the lock of the state is
    /// poisoned, the request is refused and nothing changes.
    pub fn stop_simulation(&mut self, poisoned: bool) -> (r: Result<StopStep, Fault>)
        ensures
            match r {
                Ok(step) => !poisoned && (final(self)@, step@) == old(self)@.stop_begun(),
                Err(fault) => poisoned && fault@ == Fault::<Parts, Text>::Poisoned && *final(self)
                    == *old(self),
            },
            r matches Ok(step) ==> old(self)@.wf() ==> final(self)@.is_stopping(step@),
    {
        if poisoned {
            Err(Fault::Poisoned)
        } else {
            Ok(self.stop_active())
        }
    }

    /// Goes on to stop the simulation, once the host has answered a step.
    pub fn stop_next(&mut self, step: StopStep, reply: Reply) -> (r: StopProgress)
        ensures
            (final(self)@, r@) == old(self)@.stop_after(step@, reply@),
            old(self)@.is_stopping(step@) ==> match r@ {
                StopProgress::Next { step } => final(self)@.is_stopping(step),
                StopProgress::Finished => final(self)@ == SimulationManager::<Parts, Text>::empty(),
                StopProgress::Refused { .. } => final(self)@.wf() && final(self)@.child is None,
            },
    {
        match (step, reply) {
            (StopStep::Poll, Reply::Yes) => StopProgress::Next { step: self.release() },
            (StopStep::Poll, Reply::No) => StopProgress::Next { step: StopStep::Kill },
            (StopStep::Poll, Reply::Failed { error }) => StopProgress::Next {
                step: StopStep::Abandon { error },
            },
            (StopStep::Abandon { error }, Reply::Yes) => StopProgress::Refused {
                fault: Fault::QueryChild { error },
            },
            (StopStep::Abandon { error }, Reply::Failed { .. }) => StopProgress::Refused {
                fault: Fault::QueryChild { error },
            },
            (StopStep::Kill, Reply::Yes) => StopProgress::Next { step: StopStep::Wait },
            (StopStep::Kill, Reply::Failed { error }) => StopProgress::Refused {
                fault: Fault::KillChild { error },
            },
            (StopStep::Wait, Reply::Yes) => StopProgress::Next { step: self.release() },
            (StopStep::Wait, Reply::Failed { .. }) => StopProgress::Next { step: self.release() },
            (StopStep::Check { dir }, Reply::Yes) => StopProgress::Next {
                step: StopStep::Remove { dir },
            },
            (StopStep::Check { .. }, Reply::No) => StopProgress::Next {
                step: StopStep::RemoveGames,
            },
            (StopStep::Remove { .. }, Reply::Yes) => StopProgress::Next {
                step: StopStep::RemoveGames,
            },
            (StopStep::Remove { dir }, Reply::Failed { error }) => StopProgress::Refused {
                fault: Fault::RemoveWorkDir { dir, error },
            },
            (StopStep::RemoveGames, Reply::Yes) => StopProgress::Next {
                step: StopStep::RemoveRoot,
            },
            (StopStep::RemoveGames, Reply::Failed { .. }) => StopProgress::Next {
                step: StopStep::RemoveRoot,
            },
            (StopStep::RemoveRoot, Reply::Yes) => self.forget(),
            (StopStep::RemoveRoot, Reply::Failed { .. }) => self.forget(),
            (step, _) => StopProgress::Next { step },
        }
    }

    fn forget(&mut self) -> (r: StopProgress)
        ensures
            final(self)@ == (SimulationManager {
                target_name: None,
                executable_path: None,
                ..old(self)@
            }),
            r@ == StopProgress::<Parts, Text>::Finished,
    {
        self.target_name = None;
        self.executable_path = None;
        StopProgress::Finished
    }
}

/// Hosts that answer every step of stopping.
pub open spec fn answers_stop(
    host: spec_fn(StopStep<Parts, Text>) -> Reply<Text>,
) -> bool {
    forall|step: StopStep<Parts, Text>| step.is_answered_by(#[trigger] host(step))
}

impl SimulationManager<Parts, Text> {
    /// The state and the end that stopping comes to from a step on, with a host that answers
    /// every step.
    pub open spec fn stop_run(
        self,
        step: StopStep<Parts, Text>,
        host: spec_fn(StopStep<Parts, Text>) -> Reply<Text>,
    ) -> (Self, StopProgress<Parts, Text>)
        decreases step.steps_left(),
        when answers_stop(host)
    {
        let (next, progress) = self.stop_after(step, host(step));
        match progress {
            StopProgress::Next { step: following } => {
                proof {
                    assert(step.is_answered_by(host(step)));
                }
                next.stop_run(following, host)
            },
            _ => (next, progress),
        }
    }

    /// What stopping comes to, from its beginning to its end: it fails if the state of the child
    /// is unknown, if a running child cannot be ended, or if an existing directory cannot be
    /// removed; else nothing of the simulation is left. Waiting for the child and removing the
    /// directories above make no difference.
    pub open spec fn stop_outcome(
        self,
        host: spec_fn(StopStep<Parts, Text>) -> Reply<Text>,
    ) -> (Self, StopProgress<Parts, Text>) {
        let poll = host(StopStep::Poll);
        let kill = host(StopStep::Kill);
        if self.child is Some && poll is Failed {
            (
                SimulationManager { child: None, ..self },
                StopProgress::Refused { fault: Fault::QueryChild { error: poll->error } },
            )
        } else if self.child is Some && poll is No && kill is Failed {
            (
                SimulationManager { child: None, ..self },
                StopProgress::Refused { fault: Fault::KillChild { error: kill->error } },
            )
        } else {
            match self.work_dir {
                Some(dir) if host(StopStep::Check { dir }) is Yes && host(
                    StopStep::Remove { dir },
                ) is Failed => (
                    SimulationManager { child: None, work_dir: None, ..self },
                    StopProgress::Refused {
                        fault: Fault::RemoveWorkDir {
                            dir,
                            error: host(StopStep::Remove { dir })->error,
                        },
                    },
                ),
                _ => (Self::empty(), StopProgress::Finished),
            }
        }
    }
}

/// Stopping ends: every answered step leads to an end, or to a step that fewer can follow.
pub proof fn law_stopping_ends(
    manager: SimulationManager<Parts, Text>,
    step: StopStep<Parts, Text>,
    reply: Reply<Text>,
)
    requires
        step.is_answered_by(reply),
    ensures
        manager.stop_after(step, reply).1 matches StopProgress::Next { step: following }
            ==> following.steps_left() < step.steps_left(),
{
}

proof fn lemma_stop_tail(
    manager: SimulationManager<Parts, Text>,
    host: spec_fn(StopStep<Parts, Text>) -> Reply<Text>,
)
    requires
        answers_stop(host),
    ensures
        manager.stop_run(StopStep::RemoveGames, host) == (
            SimulationManager { target_name: None, executable_path: None, ..manager },
            StopProgress::<Parts, Text>::Finished,
        ),
{
    let games = StopStep::<Parts, Text>::RemoveGames;
    let root = StopStep::<Parts, Text>::RemoveRoot;
    assert(games.is_answered_by(host(games)));
    assert(root.is_answered_by(host(root)));
    assert(manager.stop_after(games, host(games)) == (
        manager,
        StopProgress::Next { step: root },
    ));
    assert(manager.stop_run(root, host) == (
        SimulationManager { target_name: None, executable_path: None, ..manager },
        StopProgress::<Parts, Text>::Finished,
    ));
}

proof fn lemma_stop_released(
    manager: SimulationManager<Parts, Text>,
    host: spec_fn(StopStep<Parts, Text>) -> Reply<Text>,
)
    requires
        answers_stop(host),
        manager.child is None,
    ensures
        manager.released().0.stop_run(manager.released().1, host) == manager.stop_outcome(host),
{
    let (next, step) = manager.released();
    lemma_stop_tail(next, host);
    if let Some(dir) = manager.work_dir {
        let check = StopStep::<Parts, Text>::Check { dir };
        let remove = StopStep::<Parts, Text>::Remove { dir };
        assert(check.is_answered_by(host(check)));
        assert(remove.is_answered_by(host(remove)));
        if host(check) is Yes {
            assert(next.stop_after(check, host(check)) == (
                next,
                StopProgress::Next { step: remove },
            ));
            assert(next.stop_run(check, host) == next.stop_run(remove, host));
            if host(remove) is Yes {
                assert(next.stop_run(remove, host) == next.stop_run(StopStep::RemoveGames, host));
            }
        } else {
            assert(next.stop_run(check, host) == next.stop_run(StopStep::RemoveGames, host));
        }
    }
}

/// Stopping, step by step, comes to the outcome as a whole that `stop_outcome` says, whatever
/// the host answers.
pub proof fn law_stop_outcome(
    manager: SimulationManager<Parts, Text>,
    host: spec_fn(StopStep<Parts, Text>) -> Reply<Text>,
)
    requires
        answers_stop(host),
    ensures
        manager.stop_begun().0.stop_run(manager.stop_begun().1, host) == manager.stop_outcome(host),
{
    if manager.child is Some {
        let m = SimulationManager { child: None, ..manager };
        let poll = StopStep::<Parts, Text>::Poll;
        let kill = StopStep::<Parts, Text>::Kill;
        let wait = StopStep::<Parts, Text>::Wait;
        assert(poll.is_answered_by(host(poll)));
        assert(kill.is_answered_by(host(kill)));
        assert(wait.is_answered_by(host(wait)));
        lemma_stop_released(m, host);
        let (next, step) = m.released();
        match host(poll) {
            Reply::Failed { error } => {
                let abandon = StopStep::<Parts, Text>::Abandon { error };
                assert(abandon.is_answered_by(host(abandon)));
                assert(m.stop_run(poll, host) == m.stop_run(abandon, host));
            },
            Reply::No => {
                assert(m.stop_run(poll, host) == m.stop_run(kill, host));
                if host(kill) is Yes {
                    assert(m.stop_run(kill, host) == m.stop_run(wait, host));
                    assert(m.stop_run(wait, host) == next.stop_run(step, host));
                }
            },
            _ => {
                assert(m.stop_run(poll, host) == next.stop_run(step, host));
            },
        }
    } else {
        lemma_stop_released(manager, host);
    }
}

/// What a request to stop comes to, from its beginning to its end: the state that is left, and
/// the status that is shown or the fault. `polled` is what the host says of the child when the
/// status is asked for.
pub open spec fn stop_simulation_outcome(
    manager: SimulationManager<Parts, Text>,
    poisoned: bool,
    host: spec_fn(StopStep<Parts, Text>) -> Reply<Text>,
    polled: Reply<Text>,
) -> (SimulationManager<Parts, Text>, Result<SimulationStatus<Parts, Text>, Fault<Parts, Text>>)
    recommends
        answers_stop(host),
{
    if poisoned {
        (manager, Err(Fault::Poisoned))
    } else {
        let (begun, step) = manager.stop_begun();
        let (left, end) = begun.stop_run(step, host);
        match end {
            StopProgress::Refused { fault } => (left, Err(fault)),
            _ => (left.polled(polled), Ok(left.polled(polled).shown())),
        }
    }
}

/// A request to stop succeeds only with an inactive status that shows no process, target or
/// executable, with nothing left in the state, with a child that had ended or was ended, and with
/// a directory that was gone or was removed. A poisoned lock refuses it and changes nothing. Any
/// other failure of it is the failure of stopping.
pub proof fn law_stop_simulation(
    manager: SimulationManager<Parts, Text>,
    poisoned: bool,
    host: spec_fn(StopStep<Parts, Text>) -> Reply<Text>,
    polled: Reply<Text>,
)
    requires
        answers_stop(host),
    ensures
        ({
            let (left, result) = stop_simulation_outcome(manager, poisoned, host, polled);
            let (stopped, end) = manager.stop_outcome(host);
            &&& poisoned ==> left == manager && result == Err::<
                SimulationStatus<Parts, Text>,
                Fault<Parts, Text>,
            >(Fault::Poisoned)
            &&& !poisoned ==> (result is Ok <==> end is Finished)
            &&& !poisoned ==> (end matches StopProgress::Refused { fault } ==> left == stopped
                && result == Err::<SimulationStatus<Parts, Text>, Fault<Parts, Text>>(fault))
            &&& result matches Ok(status) ==> {
                &&& left == SimulationManager::<Parts, Text>::empty()
                &&& !status.active
                &&& status.pid is None
                &&& status.target_name is None
                &&& status.executable_path is None
                &&& manager.child is Some ==> host(StopStep::Poll) is Yes || host(
                    StopStep::Kill,
                ) is Yes
                &&& manager.work_dir matches Some(dir) ==> host(StopStep::Check { dir }) is No
                    || host(StopStep::Remove { dir }) is Yes
            }
        }),
{
    law_stop_outcome(manager, host);
    let poll = StopStep::<Parts, Text>::Poll;
    let kill = StopStep::<Parts, Text>::Kill;
    assert(poll.is_answered_by(host(poll)));
    assert(kill.is_answered_by(host(kill)));
    if let Some(dir) = manager.work_dir {
        let check = StopStep::<Parts, Text>::Check { dir };
        let remove = StopStep::<Parts, Text>::Remove { dir };
        assert(check.is_answered_by(host(check)));
        assert(remove.is_answered_by(host(remove)));
    }
}

/// Once a simulation has been stopped, nothing of it is shown, and stopping again succeeds
/// whatever the host answers.
pub proof fn law_stopped_stays_stopped(
    polled: Reply<Text>,
    host: spec_fn(StopStep<Parts, Text>) -> Reply<Text>,
)
    ensures
        ({
            let empty = SimulationManager::<Parts, Text>::empty();
            &&& empty.polled(polled).shown() == (SimulationStatus::<Parts, Text> {
                active: false,
                pid: None,
                target_name: None,
                executable_path: None,
            })
            &&& empty.stop_outcome(host) == (
                empty,
                StopProgress::<Parts, Text>::Finished,
            )
        }),
{
}

/// A second stop after a failed one succeeds where the failure was about the directory, and does
/// not ask for the child again.
pub proof fn law_stop_does_not_ask_for_the_child_again(
    manager: SimulationManager<Parts, Text>,
    host: spec_fn(StopStep<Parts, Text>) -> Reply<Text>,
    later: spec_fn(StopStep<Parts, Text>) -> Reply<Text>,
)
    ensures
        ({
            let (left, end) = manager.stop_outcome(host);
            &&& left.stop_begun().1 !is Poll
            &&& end matches StopProgress::Refused { fault: Fault::RemoveWorkDir { .. } }
                ==> left.stop_outcome(later) == (
                SimulationManager::<Parts, Text>::empty(),
                StopProgress::<Parts, Text>::Finished,
            )
        }),
{
}

} // verus!
