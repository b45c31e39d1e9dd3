//! How a simulation is started.
//!
//! The simulation that is active is stopped first. Then a copy of the program is placed in a
//! directory of its own, under the name of the target, and started as an idle daemon.

use vstd::prelude::*;
use crate::fault::Fault;
use crate::path;
use crate::path::{Parts, RelPath};
use crate::simulation::{Reply, SimulationManager, StopProgress, StopStep};
use crate::simulation;
use crate::target;
use crate::text;
use crate::text::Text;
use crate::title;
use crate::workspace;

verus! {

/// The permissions of the copy of the program, on hosts that have such.
pub const EXECUTABLE_MODE: u32 = 0o755;

/// A stage of starting, for the host to do. `dir` is the directory of the new simulation.
#[derive(Debug, PartialEq, Eq)]
pub enum StartStage<P = RelPath, T = String> {
    /// Do this step of stopping the simulation that is active.
    Stop { step: StopStep<P, T> },
    /// Find the file of the program itself: `Yes` or `Failed`.
    Resolve,
    /// Read the clock: `Now` or `Failed`.
    Clock,
    /// Create the directory of the simulation, with those above it: `Yes` or `Failed`.
    CreateWorkDir { dir: P },
    /// Create the directory of the executable, with those above it: `Yes` or `Failed`.
    CreateParent { dir: P },
    /// Copy the program to the executable: `Yes` or `Failed`.
    Copy { dir: P },
    /// Read the permissions of the executable: `Yes` or `Failed`.
    ReadPermissions { dir: P },
    /// Set the permissions of the executable to `EXECUTABLE_MODE`: `Yes` or `Failed`.
    SetPermissions { dir: P },
    /// Start the executable as `Start::launch_in` says, with the directory of the simulation as its
    /// current directory: `Started` or `Failed`.
    Spawn { dir: P },
}

impl View for StartStage {
    type V = StartStage<Parts, Text>;

    open spec fn view(&self) -> StartStage<Parts, Text> {
        match *self {
            StartStage::Stop { step } => StartStage::Stop { step: step@ },
            StartStage::Resolve => StartStage::Resolve,
            StartStage::Clock => StartStage::Clock,
            StartStage::CreateWorkDir { dir } => StartStage::CreateWorkDir { dir: dir@ },
            StartStage::CreateParent { dir } => StartStage::CreateParent { dir: dir@ },
            StartStage::Copy { dir } => StartStage::Copy { dir: dir@ },
            StartStage::ReadPermissions { dir } => StartStage::ReadPermissions { dir: dir@ },
            StartStage::SetPermissions { dir } => StartStage::SetPermissions { dir: dir@ },
            StartStage::Spawn { dir } => StartStage::Spawn { dir: dir@ },
        }
    }
}

/// A start under way: the clean title, the path of the target below the directory of the
/// simulation, and the stage to do.
#[derive(Debug, PartialEq, Eq)]
pub struct Start<P = RelPath, T = String> {
    pub title: T,
    pub target: P,
    pub stage: StartStage<P, T>,
}

impl View for Start {
    type V = Start<Parts, Text>;

    open spec fn view(&self) -> Start<Parts, Text> {
        Start { title: self.title@, target: self.target@, stage: self.stage@ }
    }
}

/// What follows a reply while a simulation is started.
#[derive(Debug, PartialEq, Eq)]
pub enum StartProgress<P = RelPath, T = String> {
    /// The start goes on.
    Next { start: Start<P, T> },
    /// The simulation has been started.
    Finished,
    /// Starting has failed.
    Refused { fault: Fault<P, T> },
}

impl View for StartProgress {
    type V = StartProgress<Parts, Text>;

    open spec fn view(&self) -> StartProgress<Parts, Text> {
        match *self {
            StartProgress::Next { start } => StartProgress::Next { start: start@ },
            StartProgress::Finished => StartProgress::Finished,
            StartProgress::Refused { fault } => StartProgress::Refused { fault: fault@ },
        }
    }
}

impl StartStage<Parts, Text> {
    /// Whether a reply answers the stage.
    pub open spec fn is_answered_by(self, reply: Reply<Text>) -> bool {
        match self {
            StartStage::Stop { step } => step.is_answered_by(reply),
            StartStage::Clock => reply is Now || reply is Failed,
            StartStage::Spawn { .. } => reply is Started || reply is Failed,
            _ => reply is Yes || reply is Failed,
        }
    }

    /// How many stages can follow at most.
    pub open spec fn stages_left(self) -> nat {
        match self {
            StartStage::Stop { step } => 8 + step.steps_left(),
            StartStage::Resolve => 7,
            StartStage::Clock => 6,
            StartStage::CreateWorkDir { .. } => 5,
            StartStage::CreateParent { .. } => 4,
            StartStage::Copy { .. } => 3,
            StartStage::ReadPermissions { .. } => 2,
            StartStage::SetPermissions { .. } => 1,
            StartStage::Spawn { .. } => 0,
        }
    }
}

/// The state with the simulation that this process runs, of this target in this directory.
pub open spec fn running(pid: u32, target: Parts, dir: Parts) -> SimulationManager<Parts, Text> {
    SimulationManager {
        child: Some(pid),
        target_name: Some(path::portable(target)),
        executable_path: Some(dir + target),
        work_dir: Some(dir),
    }
}

impl Start<Parts, Text> {
    /// The same start at another stage.
    pub open spec fn at(self, stage: StartStage<Parts, Text>) -> StartProgress<Parts, Text> {
        StartProgress::Next { start: Start { stage, ..self } }
    }

    /// Starts of the application: the title is clean, the target cannot leave the directory, and
    /// that lies where such directories lie. Once the active simulation has been stopped, nothing
    /// of it is left.
    pub open spec fn wf(self, manager: SimulationManager<Parts, Text>) -> bool {
        &&& title::is_title_text(self.title)
        &&& path::is_confined(self.target)
        &&& match self.stage {
            StartStage::Stop { step } => manager.is_stopping(step),
            _ => manager == SimulationManager::<Parts, Text>::empty(),
        }
        &&& match self.stage {
            StartStage::CreateWorkDir { dir } => workspace::is_work_dir(dir),
            StartStage::CreateParent { dir } => workspace::is_work_dir(dir),
            StartStage::Copy { dir } => workspace::is_work_dir(dir),
            StartStage::ReadPermissions { dir } => workspace::is_work_dir(dir),
            StartStage::SetPermissions { dir } => workspace::is_work_dir(dir),
            StartStage::Spawn { dir } => workspace::is_work_dir(dir),
            _ => true,
        }
    }

    /// The fault of a stage that failed; a step of stopping has faults of its own.
    pub open spec fn stage_fault(self, error: Text) -> Fault<Parts, Text> {
        match self.stage {
            StartStage::CreateWorkDir { dir } => Fault::CreateWorkDir { dir, error },
            StartStage::CreateParent { dir } => Fault::CreateParent {
                dir: path::parent_of(dir + self.target),
                error,
            },
            StartStage::Copy { dir } => Fault::CopyProgram { to: dir + self.target, error },
            StartStage::ReadPermissions { dir } => Fault::ReadPermissions {
                file: dir + self.target,
                error,
            },
            StartStage::SetPermissions { dir } => Fault::SetPermissions {
                file: dir + self.target,
                error,
            },
            StartStage::Spawn { dir } => Fault::Spawn { program: dir + self.target, error },
            StartStage::Clock => Fault::Clock { error },
            _ => Fault::ResolveProgram { error },
        }
    }

    /// The state after a reply to a stage of starting, and what follows. A reply that does not
    /// answer the stage changes nothing, and the stage is still to be done.
    pub open spec fn start_after(
        self,
        manager: SimulationManager<Parts, Text>,
        reply: Reply<Text>,
    ) -> (SimulationManager<Parts, Text>, StartProgress<Parts, Text>) {
        if let StartStage::Stop { step } = self.stage {
            let (left, progress) = manager.stop_after(step, reply);
            match progress {
                StopProgress::Next { step } => (left, self.at(StartStage::Stop { step })),
                StopProgress::Finished => (left, self.at(StartStage::Resolve)),
                StopProgress::Refused { fault } => (left, StartProgress::Refused { fault }),
            }
        } else if !self.stage.is_answered_by(reply) {
            (manager, self.at(self.stage))
        } else if reply is Failed {
            (manager, StartProgress::Refused { fault: self.stage_fault(reply->error) })
        } else {
            match self.stage {
                StartStage::Clock => (
                    manager,
                    self.at(
                        StartStage::CreateWorkDir {
                            dir: workspace::work_dir_path(
                                self.title,
                                reply->process as nat,
                                reply->nanos as nat,
                            ),
                        },
                    ),
                ),
                StartStage::CreateWorkDir { dir } => (
                    manager,
                    self.at(StartStage::CreateParent { dir }),
                ),
                StartStage::CreateParent { dir } => (manager, self.at(StartStage::Copy { dir })),
                StartStage::Copy { dir } => (manager, self.at(StartStage::ReadPermissions { dir })),
                StartStage::ReadPermissions { dir } => (
                    manager,
                    self.at(StartStage::SetPermissions { dir }),
                ),
                StartStage::SetPermissions { dir } => (
                    manager,
                    self.at(StartStage::Spawn { dir }),
                ),
                StartStage::Spawn { dir } => (
                    running(reply->pid, self.target, dir),
                    StartProgress::Finished,
                ),
                _ => (manager, self.at(StartStage::Clock)),
            }
        }
    }
}

/// Begins to start a simulation of a target whose check has come to this: a refusal is handed
/// on with its very message and changes nothing, whatever the title and the lock; a poisoned
/// lock of the state refuses a clean path and changes nothing; else the simulation that is active
/// begins to be stopped.
pub fn start_checked(
    manager: &mut SimulationManager,
    game_title: &str,
    checked: Result<RelPath, String>,
    poisoned: bool,
) -> (r: Result<Start, Fault>)
    ensures
        match checked {
            Ok(_) if poisoned => {
                &&& *final(manager) == *old(manager)
                &&& r matches Err(fault)
                &&& fault@ == Fault::<Parts, Text>::Poisoned
            },
            Ok(clean) => {
                let (begun, step) = old(manager)@.stop_begun();
                &&& final(manager)@ == begun
                &&& r matches Ok(start)
                &&& start@ == (Start {
                    title: title::clean_title(game_title@),
                    target: clean@,
                    stage: StartStage::Stop { step },
                })
                &&& old(manager)@.wf() && path::is_confined(clean@) ==> start@.wf(
                    final(manager)@,
                )
            },
            Err(refusal) => {
                &&& *final(manager) == *old(manager)
                &&& r matches Err(Fault::Target { message })
                &&& message@ == refusal@
            },
        },
{
    match checked {
        Ok(clean) => {
            if poisoned {
                return Err(Fault::Poisoned);
            }
            let title = title::sanitize_game_title(game_title);
            let step = manager.stop_active();
            proof {
                title::law_clean_title_is_safe(game_title@);
            }
            Ok(Start { title, target: clean, stage: StartStage::Stop { step } })
        },
        Err(message) => Err(Fault::Target { message }),
    }
}

/// Begins to start a simulation: checks what was asked for, and begins to stop the simulation
/// that is active. A target that is refused changes nothing, nor does a poisoned lock of the
/// state, which refuses every target that is accepted.
pub fn start_simulation(
    manager: &mut SimulationManager,
    game_title: &str,
    target_name: &str,
    poisoned: bool,
) -> (r: Result<Start, Fault>)
    ensures
        r is Ok <==> target::is_accepted(target_name@) && !poisoned,
        r matches Ok(start) ==> {
            let (begun, step) = old(manager)@.stop_begun();
            &&& final(manager)@ == begun
            &&& start@ == (Start {
                title: title::clean_title(game_title@),
                target: target::path_parts(target::target_path(target_name@)),
                stage: StartStage::Stop { step },
            })
            &&& old(manager)@.wf() ==> start@.wf(final(manager)@)
        },
        r matches Err(fault) ==> {
            &&& *final(manager) == *old(manager)
            &&& if target::is_accepted(target_name@) {
                fault@ == Fault::<Parts, Text>::Poisoned
            } else {
                &&& fault matches Fault::Target { message }
                &&& target::is_refusal(target_name@, message@)
            }
        },
{
    let checked = target::sanitize_target_path(target_name);
    proof {
        if target::is_accepted(target_name@) {
            target::law_accepted_target_is_confined(target_name@);
        }
    }
    start_checked(manager, game_title, checked, poisoned)
}

/// A process to start: its program, the arguments for it, and its current directory.
#[derive(Debug, PartialEq, Eq)]
pub struct Launch {
    pub program: RelPath,
    pub args: Vec<String>,
    pub current_dir: RelPath,
}

impl Start {
    /// The path of the executable of a simulation in this directory.
    pub fn executable_in(&self, dir: &RelPath) -> (r: RelPath)
        ensures
            r@ == dir@ + self@.target,
    {
        dir.join(&self.target)
    }

    /// The process of a simulation in this directory: the executable of the target, as an idle
    /// daemon behind the title, with the directory of the simulation as its current one.
    pub fn launch_in(&self, dir: &RelPath) -> (r: Launch)
        ensures
            r.program@ == dir@ + self@.target,
            text::texts(r.args@) == title::daemon_arguments(self@.title),
            r.current_dir@ == dir@,
    {
        Launch {
            program: self.executable_in(dir),
            args: title::daemon_args(self.title.as_str()),
            current_dir: dir.duplicate(),
        }
    }

    fn fail(self, error: String) -> (fault: Fault)
        requires
            self@.stage !is Stop,
        ensures
            fault@ == self@.stage_fault(error@),
    {
        match &self.stage {
            StartStage::Stop { .. } | StartStage::Resolve => Fault::ResolveProgram { error },
            StartStage::Clock => Fault::Clock { error },
            StartStage::CreateWorkDir { dir } => Fault::CreateWorkDir {
                dir: dir.duplicate(),
                error,
            },
            StartStage::CreateParent { dir } => Fault::CreateParent {
                dir: self.executable_in(dir).parent(),
                error,
            },
            StartStage::Copy { dir } => Fault::CopyProgram { to: self.executable_in(dir), error },
            StartStage::ReadPermissions { dir } => Fault::ReadPermissions {
                file: self.executable_in(dir),
                error,
            },
            StartStage::SetPermissions { dir } => Fault::SetPermissions {
                file: self.executable_in(dir),
                error,
            },
            StartStage::Spawn { dir } => Fault::Spawn { program: self.executable_in(dir), error },
        }
    }

    /// Goes on to start the simulation, once the host has answered a stage.
    pub fn start_next(self, manager: &mut SimulationManager, reply: Reply) -> (r: StartProgress)
        ensures
            (final(manager)@, r@) == self@.start_after(old(manager)@, reply@),
            self@.wf(old(manager)@) ==> match r@ {
                StartProgress::Next { start } => start.wf(final(manager)@),
                StartProgress::Finished => final(manager)@.wf() && final(manager)@.child is Some,
                StartProgress::Refused { .. } => final(manager)@.wf() && final(manager)@.child is None,
            },
    {
        let Start { title, target, stage } = self;
        match (stage, reply) {
            (StartStage::Stop { step }, reply) => {
                let progress = manager.stop_next(step, reply);
                match progress {
                    StopProgress::Next { step } => StartProgress::Next {
                        start: Start { title, target, stage: StartStage::Stop { step } },
                    },
                    StopProgress::Finished => StartProgress::Next {
                        start: Start { title, target, stage: StartStage::Resolve },
                    },
                    StopProgress::Refused { fault } => StartProgress::Refused { fault },
                }
            },
            (stage, Reply::Failed { error }) => {
                let start = Start { title, target, stage };
                StartProgress::Refused { fault: start.fail(error) }
            },
            (StartStage::Clock, Reply::Now { process, nanos }) => {
                let dir = workspace::build_isolated_work_dir(title.as_str(), process, nanos);
                proof {
                    if title::is_title_text(title@) {
                        workspace::law_work_dir_is_below_games(
                            title@,
                            process as nat,
                            nanos as nat,
                        );
                    }
                }
                StartProgress::Next {
                    start: Start { title, target, stage: StartStage::CreateWorkDir { dir } },
                }
            },
            (StartStage::Spawn { dir }, Reply::Started { pid }) => {
                proof {
                    if path::is_confined(dir@) && path::is_confined(target@) {
                        path::law_join_stays_confined(dir@, target@);
                    }
                }
                manager.child = Some(pid);
                manager.target_name = Some(path::path_to_portable_string(&target));
                manager.executable_path = Some(dir.join(&target));
                manager.work_dir = Some(dir);
                StartProgress::Finished
            },
            (StartStage::Resolve, Reply::Yes) => StartProgress::Next {
                start: Start { title, target, stage: StartStage::Clock },
            },
            (StartStage::CreateWorkDir { dir }, Reply::Yes) => StartProgress::Next {
                start: Start { title, target, stage: StartStage::CreateParent { dir } },
            },
            (StartStage::CreateParent { dir }, Reply::Yes) => StartProgress::Next {
                start: Start { title, target, stage: StartStage::Copy { dir } },
            },
            (StartStage::Copy { dir }, Reply::Yes) => StartProgress::Next {
                start: Start { title, target, stage: StartStage::ReadPermissions { dir } },
            },
            (StartStage::ReadPermissions { dir }, Reply::Yes) => StartProgress::Next {
                start: Start { title, target, stage: StartStage::SetPermissions { dir } },
            },
            (StartStage::SetPermissions { dir }, Reply::Yes) => StartProgress::Next {
                start: Start { title, target, stage: StartStage::Spawn { dir } },
            },
            (stage, _) => StartProgress::Next { start: Start { title, target, stage } },
        }
    }
}

/// Hosts that answer every stage of starting.
pub open spec fn answers_start(host: spec_fn(StartStage<Parts, Text>) -> Reply<Text>) -> bool {
    forall|stage: StartStage<Parts, Text>| stage.is_answered_by(#[trigger] host(stage))
}

/// What the host answers to the steps of stopping while it starts a simulation.
pub open spec fn stop_host(host: spec_fn(StartStage<Parts, Text>) -> Reply<Text>) -> spec_fn(
    StopStep<Parts, Text>,
) -> Reply<Text> {
    |step: StopStep<Parts, Text>| host(StartStage::Stop { step })
}

impl Start<Parts, Text> {
    /// The state and the end that starting comes to, with a host that answers every stage.
    pub open spec fn start_run(
        self,
        manager: SimulationManager<Parts, Text>,
        host: spec_fn(StartStage<Parts, Text>) -> Reply<Text>,
    ) -> (SimulationManager<Parts, Text>, StartProgress<Parts, Text>)
        decreases self.stage.stages_left(),
        when answers_start(host)
    {
        let (next, progress) = self.start_after(manager, host(self.stage));
        match progress {
            StartProgress::Next { start } => {
                proof {
                    assert(self.stage.is_answered_by(host(self.stage)));
                }
                start.start_run(next, host)
            },
            _ => (next, progress),
        }
    }

    /// What the stages of a new simulation in this directory come to: the first stage that fails
    /// is the fault, and else the simulation runs.
    pub open spec fn launch_outcome(
        self,
        dir: Parts,
        host: spec_fn(StartStage<Parts, Text>) -> Reply<Text>,
    ) -> (SimulationManager<Parts, Text>, StartProgress<Parts, Text>) {
        let create = StartStage::CreateWorkDir { dir };
        let parent = StartStage::CreateParent { dir };
        let copy = StartStage::Copy { dir };
        let read = StartStage::ReadPermissions { dir };
        let set = StartStage::SetPermissions { dir };
        let spawn = StartStage::Spawn { dir };
        if host(create) is Failed {
            self.refused_at(create, host)
        } else if host(parent) is Failed {
            self.refused_at(parent, host)
        } else if host(copy) is Failed {
            self.refused_at(copy, host)
        } else if host(read) is Failed {
            self.refused_at(read, host)
        } else if host(set) is Failed {
            self.refused_at(set, host)
        } else if host(spawn) is Failed {
            self.refused_at(spawn, host)
        } else {
            (running(host(spawn)->pid, self.target, dir), StartProgress::Finished)
        }
    }

    /// The end of a start that fails at a stage after the active simulation has been stopped:
    /// there is no simulation.
    pub open spec fn refused_at(
        self,
        stage: StartStage<Parts, Text>,
        host: spec_fn(StartStage<Parts, Text>) -> Reply<Text>,
    ) -> (SimulationManager<Parts, Text>, StartProgress<Parts, Text>) {
        (
            SimulationManager::<Parts, Text>::empty(),
            StartProgress::Refused {
                fault: Start { stage, ..self }.stage_fault(host(stage)->error),
            },
        )
    }
}

/// What starting comes to, from its beginning to its end: the active simulation is stopped, and
/// where that fails nothing is started; the program and the clock are asked; and the copy is
/// placed and started in a directory of its own.
pub open spec fn start_outcome(
    manager: SimulationManager<Parts, Text>,
    title: Text,
    target: Parts,
    host: spec_fn(StartStage<Parts, Text>) -> Reply<Text>,
) -> (SimulationManager<Parts, Text>, StartProgress<Parts, Text>) {
    let (left, end) = manager.stop_outcome(stop_host(host));
    let start = Start { title, target, stage: StartStage::Resolve };
    let now = host(StartStage::Clock);
    if let StopProgress::Refused { fault } = end {
        (left, StartProgress::Refused { fault })
    } else if host(StartStage::Resolve) is Failed {
        start.refused_at(StartStage::Resolve, host)
    } else if now is Failed {
        start.refused_at(StartStage::Clock, host)
    } else {
        start.launch_outcome(
            workspace::work_dir_path(title, now->process as nat, now->nanos as nat),
            host,
        )
    }
}

/// Starting ends: every answered stage leads to an end, or to a stage that fewer can follow.
pub proof fn law_starting_ends(
    start: Start<Parts, Text>,
    manager: SimulationManager<Parts, Text>,
    reply: Reply<Text>,
)
    requires
        start.stage.is_answered_by(reply),
    ensures
        start.start_after(manager, reply).1 matches StartProgress::Next { start: following }
            ==> following.stage.stages_left() < start.stage.stages_left(),
{
}

proof fn lemma_start_stops(
    start: Start<Parts, Text>,
    manager: SimulationManager<Parts, Text>,
    step: StopStep<Parts, Text>,
    host: spec_fn(StartStage<Parts, Text>) -> Reply<Text>,
)
    requires
        answers_start(host),
        start.stage == (StartStage::Stop { step }),
    ensures
        simulation::answers_stop(stop_host(host)),
        ({
            let (left, end) = manager.stop_run(step, stop_host(host));
            start.start_run(manager, host) == match end {
                StopProgress::Refused { fault } => (left, StartProgress::Refused { fault }),
                _ => Start { stage: StartStage::Resolve, ..start }.start_run(left, host),
            }
        }),
    decreases step.steps_left(),
{
    let inner = stop_host(host);
    assert forall|s: StopStep<Parts, Text>| s.is_answered_by(#[trigger] inner(s)) by {
        let stage = StartStage::<Parts, Text>::Stop { step: s };
        assert(stage.is_answered_by(host(stage)));
    }
    assert(step.is_answered_by(inner(step)));
    let (next, progress) = manager.stop_after(step, inner(step));
    if let StopProgress::Next { step: following } = progress {
        let later = Start { stage: StartStage::Stop { step: following }, ..start };
        lemma_start_stops(later, next, following, host);
        assert(start.start_run(manager, host) == later.start_run(next, host));
    }
}

proof fn lemma_launch(
    start: Start<Parts, Text>,
    dir: Parts,
    host: spec_fn(StartStage<Parts, Text>) -> Reply<Text>,
)
    requires
        answers_start(host),
        start.stage == (StartStage::<Parts, Text>::CreateWorkDir { dir }),
    ensures
        start.start_run(SimulationManager::<Parts, Text>::empty(), host) == start.launch_outcome(
            dir,
            host,
        ),
{
    let m = SimulationManager::<Parts, Text>::empty();
    let s1 = StartStage::<Parts, Text>::CreateWorkDir { dir };
    let s2 = StartStage::<Parts, Text>::CreateParent { dir };
    let s3 = StartStage::<Parts, Text>::Copy { dir };
    let s4 = StartStage::<Parts, Text>::ReadPermissions { dir };
    let s5 = StartStage::<Parts, Text>::SetPermissions { dir };
    let s6 = StartStage::<Parts, Text>::Spawn { dir };
    assert(s1.is_answered_by(host(s1)));
    assert(s2.is_answered_by(host(s2)));
    assert(s3.is_answered_by(host(s3)));
    assert(s4.is_answered_by(host(s4)));
    assert(s5.is_answered_by(host(s5)));
    assert(s6.is_answered_by(host(s6)));
    let a2 = Start { stage: s2, ..start };
    let a3 = Start { stage: s3, ..start };
    let a4 = Start { stage: s4, ..start };
    let a5 = Start { stage: s5, ..start };
    let a6 = Start { stage: s6, ..start };
    assert(!(host(s1) is Failed) ==> start.start_run(m, host) == a2.start_run(m, host));
    assert(!(host(s2) is Failed) ==> a2.start_run(m, host) == a3.start_run(m, host));
    assert(!(host(s3) is Failed) ==> a3.start_run(m, host) == a4.start_run(m, host));
    assert(!(host(s4) is Failed) ==> a4.start_run(m, host) == a5.start_run(m, host));
    assert(!(host(s5) is Failed) ==> a5.start_run(m, host) == a6.start_run(m, host));
}

/// Starting, stage by stage, comes to the outcome as a whole that `start_outcome` says, whatever
/// the host answers.
pub proof fn law_start_outcome(
    manager: SimulationManager<Parts, Text>,
    title: Text,
    target: Parts,
    host: spec_fn(StartStage<Parts, Text>) -> Reply<Text>,
)
    requires
        answers_start(host),
    ensures
        ({
            let (begun, step) = manager.stop_begun();
            let start = Start { title, target, stage: StartStage::Stop { step } };
            start.start_run(begun, host) == start_outcome(manager, title, target, host)
        }),
{
    let (begun, step) = manager.stop_begun();
    let start = Start { title, target, stage: StartStage::Stop { step } };
    let inner = stop_host(host);
    let m = SimulationManager::<Parts, Text>::empty();
    lemma_start_stops(start, begun, step, host);
    simulation::law_stop_outcome(manager, inner);
    let (left, end) = manager.stop_outcome(inner);
    if end is Finished {
        let resolve = StartStage::<Parts, Text>::Resolve;
        let clock = StartStage::<Parts, Text>::Clock;
        assert(resolve.is_answered_by(host(resolve)));
        assert(clock.is_answered_by(host(clock)));
        let a = Start { stage: resolve, ..start };
        let b = Start { stage: clock, ..start };
        let now = host(clock);
        let dir = workspace::work_dir_path(title, now->process as nat, now->nanos as nat);
        let c = Start { stage: StartStage::CreateWorkDir { dir }, ..start };
        assert(start.start_run(begun, host) == a.start_run(m, host));
        if !(host(resolve) is Failed) {
            assert(a.start_run(m, host) == b.start_run(m, host));
            if !(now is Failed) {
                assert(b.start_run(m, host) == c.start_run(m, host));
                lemma_launch(c, dir, host);
            }
        }
    }
}

/// There is one simulation at a time: where a new one has been started, the child of the one
/// before had ended or was ended, the directory of that one was gone or was removed, and the
/// state speaks of the new one alone.
pub proof fn law_one_simulation_at_a_time(
    manager: SimulationManager<Parts, Text>,
    title: Text,
    target: Parts,
    host: spec_fn(StartStage<Parts, Text>) -> Reply<Text>,
)
    requires
        answers_start(host),
        start_outcome(manager, title, target, host).1 is Finished,
    ensures
        manager.child is Some ==> {
            ||| host(StartStage::Stop { step: StopStep::Poll }) is Yes
            ||| host(StartStage::Stop { step: StopStep::Kill }) is Yes
        },
        manager.work_dir matches Some(dir) ==> {
            ||| host(StartStage::Stop { step: StopStep::Check { dir } }) is No
            ||| host(StartStage::Stop { step: StopStep::Remove { dir } }) is Yes
        },
        ({
            let now = host(StartStage::Clock);
            let dir = workspace::work_dir_path(title, now->process as nat, now->nanos as nat);
            start_outcome(manager, title, target, host).0 == running(
                host(StartStage::Spawn { dir })->pid,
                target,
                dir,
            )
        }),
{
    let poll = StartStage::<Parts, Text>::Stop { step: StopStep::Poll };
    let kill = StartStage::<Parts, Text>::Stop { step: StopStep::Kill };
    assert(poll.is_answered_by(host(poll)));
    assert(kill.is_answered_by(host(kill)));
    if let Some(dir) = manager.work_dir {
        let check = StartStage::<Parts, Text>::Stop { step: StopStep::Check { dir } };
        let remove = StartStage::<Parts, Text>::Stop { step: StopStep::Remove { dir } };
        assert(check.is_answered_by(host(check)));
        assert(remove.is_answered_by(host(remove)));
    }
}

/// A simulation that runs is shown as active, with its process, the portable name of its target
/// and its executable; one whose process has ended is shown as inactive, with the same name and
/// executable.
pub proof fn law_running_is_shown(pid: u32, target: Parts, dir: Parts, polled: Reply<Text>)
    ensures
        ({
            let shown = running(pid, target, dir).polled(polled).shown();
            &&& shown.active == !(polled is Yes)
            &&& shown.pid == if polled is Yes {
                None
            } else {
                Some(pid)
            }
            &&& shown.target_name == Some(path::portable(target))
            &&& shown.executable_path == Some(dir + target)
        }),
{
}

/// Stopping undoes starting: the directory that a running simulation was given is the one that
/// stopping looks for and removes, and with a host that fails nowhere nothing is left.
pub proof fn law_stop_undoes_start(
    pid: u32,
    target: Parts,
    dir: Parts,
    host: spec_fn(StopStep<Parts, Text>) -> Reply<Text>,
)
    requires
        simulation::answers_stop(host),
    ensures
        running(pid, target, dir).stop_begun().0.released().1 == (StopStep::<Parts, Text>::Check {
            dir,
        }),
        !(host(StopStep::Poll) is Failed) && !(host(StopStep::Kill) is Failed) && !(host(
            StopStep::Remove { dir },
        ) is Failed) ==> running(pid, target, dir).stop_outcome(host) == (
            SimulationManager::<Parts, Text>::empty(),
            StopProgress::<Parts, Text>::Finished,
        ),
{
}

} // verus!
