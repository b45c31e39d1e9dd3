//! The course of starting a simulation: what the host is asked, and what that comes to.

use vstd::prelude::*;
use crate::fault::Fault;
use crate::laws::{paths, stopping};
use crate::path;
use crate::path::{Parts, RelPath};
use crate::simulation::{Reply, SimulationManager, StopProgress, StopStep};
use crate::start;
use crate::start::{Start, StartProgress, StartStage};
use crate::text;
use crate::text::Text;

verus! {

/// Replies that answer a stage: the clock gives a time, a process that is started gives its
/// number, and anything else that is not a step of stopping is done or fails.
pub open spec fn answers_stage(stage: StartStage<Parts, Text>, reply: Reply<Text>) -> bool {
    if stage is Stop {
        stopping::answers_step(stage->step, reply)
    } else if stage is Clock {
        reply is Now || reply is Failed
    } else if stage is Spawn {
        reply is Started || reply is Failed
    } else {
        reply is Yes || reply is Failed
    }
}

/// Hosts that answer every stage.
pub open spec fn is_start_host(host: spec_fn(StartStage<Parts, Text>) -> Reply<Text>) -> bool {
    forall|stage: StartStage<Parts, Text>| answers_stage(stage, #[trigger] host(stage))
}

/// Which replies answer a stage; any other reply changes nothing, and the stage is asked again.
pub proof fn law_answers_to_stages(
    begun: Start<Parts, Text>,
    manager: SimulationManager<Parts, Text>,
    reply: Reply<Text>,
)
    ensures
        begun.stage.is_answered_by(reply) <==> answers_stage(begun.stage, reply),
        !answers_stage(begun.stage, reply) ==> begun.start_after(manager, reply) == (
            manager,
            StartProgress::<Parts, Text>::Next { start: begun },
        ),
{
}

/// The stages that the host is asked for from a stage on, the state that is left, and the end.
pub open spec fn start_course(
    begun: Start<Parts, Text>,
    manager: SimulationManager<Parts, Text>,
    host: spec_fn(StartStage<Parts, Text>) -> Reply<Text>,
) -> (Seq<StartStage<Parts, Text>>, SimulationManager<Parts, Text>, StartProgress<Parts, Text>)
    decreases begun.stage.stages_left(),
    when start::answers_start(host)
{
    let (next, progress) = begun.start_after(manager, host(begun.stage));
    match progress {
        StartProgress::Next { start: following } => {
            proof {
                assert(begun.stage.is_answered_by(host(begun.stage)));
            }
            let (asked, left, end) = start_course(following, next, host);
            (seq![begun.stage] + asked, left, end)
        },
        _ => (seq![begun.stage], next, progress),
    }
}

/// The answers to the steps of stopping among those to the stages.
pub open spec fn stop_answers(host: spec_fn(StartStage<Parts, Text>) -> Reply<Text>) -> spec_fn(
    StopStep<Parts, Text>,
) -> Reply<Text> {
    |step: StopStep<Parts, Text>| host(StartStage::Stop { step })
}

/// Steps of stopping as stages.
pub open spec fn as_stages(steps: Seq<StopStep<Parts, Text>>) -> Seq<StartStage<Parts, Text>> {
    Seq::new(steps.len(), |i: int| StartStage::Stop { step: steps[i] })
}

/// The stages of a new simulation in a directory, in order.
pub open spec fn launch_stages(dir: Parts) -> Seq<StartStage<Parts, Text>> {
    seq![
        StartStage::Resolve,
        StartStage::Clock,
        StartStage::CreateWorkDir { dir },
        StartStage::CreateParent { dir },
        StartStage::Copy { dir },
        StartStage::ReadPermissions { dir },
        StartStage::SetPermissions { dir },
        StartStage::Spawn { dir },
    ]
}

/// The directory of a simulation of a title that is started at this time.
pub open spec fn new_dir(title: Text, now: Reply<Text>) -> Parts {
    seq![
        "DCAutoQuest"@,
        "fake_games"@,
        title + seq!['-'] + text::decimal(now->process as nat) + seq!['-'] + text::decimal(
            now->nanos as nat,
        ),
    ]
}

/// The fault where the last of so many stages of a new simulation fails.
pub open spec fn launch_fault(count: int, dir: Parts, target: Parts, error: Text) -> Fault<
    Parts,
    Text,
> {
    if count == 1 {
        Fault::ResolveProgram { error }
    } else if count == 2 {
        Fault::Clock { error }
    } else if count == 3 {
        Fault::CreateWorkDir { dir, error }
    } else if count == 4 {
        Fault::CreateParent { dir: dir + target.drop_last(), error }
    } else if count == 5 {
        Fault::CopyProgram { to: dir + target, error }
    } else if count == 6 {
        Fault::ReadPermissions { file: dir + target, error }
    } else if count == 7 {
        Fault::SetPermissions { file: dir + target, error }
    } else {
        Fault::Spawn { program: dir + target, error }
    }
}

proof fn lemma_start_host(host: spec_fn(StartStage<Parts, Text>) -> Reply<Text>)
    requires
        is_start_host(host),
    ensures
        start::answers_start(host),
        stopping::is_stop_host(stop_answers(host)),
        crate::simulation::answers_stop(stop_answers(host)),
{
    assert forall|stage: StartStage<Parts, Text>| stage.is_answered_by(#[trigger] host(stage)) by {
        assert(answers_stage(stage, host(stage)));
    }
    let inner = stop_answers(host);
    assert forall|step: StopStep<Parts, Text>|
        stopping::answers_step(step, #[trigger] inner(step)) by {
        let stage = StartStage::<Parts, Text>::Stop { step };
        assert(answers_stage(stage, host(stage)));
    }
    assert forall|step: StopStep<Parts, Text>| step.is_answered_by(#[trigger] inner(step)) by {
        assert(stopping::answers_step(step, inner(step)));
    }
}

proof fn lemma_course_of_stops(
    begun: Start<Parts, Text>,
    manager: SimulationManager<Parts, Text>,
    step: StopStep<Parts, Text>,
    host: spec_fn(StartStage<Parts, Text>) -> Reply<Text>,
)
    requires
        is_start_host(host),
        begun.stage == (StartStage::Stop { step }),
    ensures
        ({
            let (stops, stopped, stop_end) = stopping::stop_course(
                manager,
                step,
                stop_answers(host),
            );
            let (asked, left, end) = start_course(begun, manager, host);
            match stop_end {
                StopProgress::Refused { fault } => {
                    &&& asked == as_stages(stops)
                    &&& left == stopped
                    &&& end == (StartProgress::<Parts, Text>::Refused { fault })
                },
                _ => {
                    let rest = start_course(
                        Start { stage: StartStage::Resolve, ..begun },
                        stopped,
                        host,
                    );
                    &&& asked == as_stages(stops) + rest.0
                    &&& left == rest.1
                    &&& end == rest.2
                },
            }
        }),
    decreases step.steps_left(),
{
    lemma_start_host(host);
    let inner = stop_answers(host);
    assert(stopping::answers_step(step, inner(step)));
    assert(step.is_answered_by(inner(step)));
    let (stops, stopped, stop_end) = stopping::stop_course(manager, step, inner);
    let (asked, left, end) = start_course(begun, manager, host);
    let (next, progress) = manager.stop_after(step, inner(step));
    match progress {
        StopProgress::Next { step: following } => {
            let later = Start { stage: StartStage::Stop { step: following }, ..begun };
            lemma_course_of_stops(later, next, following, host);
            let tail = stopping::stop_course(next, following, inner).0;
            assert(stops == seq![step] + tail);
            assert(as_stages(stops) =~= seq![begun.stage] + as_stages(tail));
            if stop_end !is Refused {
                let rest = start_course(
                    Start { stage: StartStage::Resolve, ..begun },
                    stopped,
                    host,
                );
                assert(asked == seq![begun.stage] + (as_stages(tail) + rest.0));
                assert(asked =~= as_stages(stops) + rest.0);
            }
        },
        _ => {
            assert(as_stages(stops) =~= seq![begun.stage]);
        },
    }
}

proof fn lemma_course_of_the_launch(
    begun: Start<Parts, Text>,
    manager: SimulationManager<Parts, Text>,
    host: spec_fn(StartStage<Parts, Text>) -> Reply<Text>,
) -> (count: int)
    requires
        is_start_host(host),
        begun.stage is Resolve,
        begun.target.len() > 0,
    ensures
        ({
            let (asked, left, end) = start_course(begun, manager, host);
            let dir = new_dir(begun.title, host(StartStage::Clock));
            let stages = launch_stages(dir);
            &&& 1 <= count <= 8
            &&& asked == stages.take(count)
            &&& forall|i: int| 0 <= i < count - 1 ==> !(host(#[trigger] stages[i]) is Failed)
            &&& match host(stages[count - 1]) {
                Reply::Failed { error } => {
                    &&& left == manager
                    &&& end == (StartProgress::<Parts, Text>::Refused {
                        fault: launch_fault(count, dir, begun.target, error),
                    })
                },
                _ => {
                    &&& count == 8
                    &&& left == (SimulationManager::<Parts, Text> {
                        child: Some(host(stages[7])->pid),
                        target_name: Some(path::portable(begun.target)),
                        executable_path: Some(dir + begun.target),
                        work_dir: Some(dir),
                    })
                    &&& end == StartProgress::<Parts, Text>::Finished
                },
            }
        }),
{
    lemma_start_host(host);
    let now = host(StartStage::Clock);
    let dir = new_dir(begun.title, now);
    let stages = launch_stages(dir);
    paths::law_directories_by_name(begun.title, now->process as nat, now->nanos as nat);
    paths::law_directory_of_an_executable(dir, begun.target);
    assert(answers_stage(stages[0], host(stages[0])));
    assert(answers_stage(stages[1], host(stages[1])));
    assert(answers_stage(stages[2], host(stages[2])));
    assert(answers_stage(stages[3], host(stages[3])));
    assert(answers_stage(stages[4], host(stages[4])));
    assert(answers_stage(stages[5], host(stages[5])));
    assert(answers_stage(stages[6], host(stages[6])));
    assert(answers_stage(stages[7], host(stages[7])));
    let a = |i: int| Start { stage: stages[i], ..begun };
    assert(a(0) == begun);
    let c7 = start_course(a(7), manager, host);
    let c6 = start_course(a(6), manager, host);
    let c5 = start_course(a(5), manager, host);
    let c4 = start_course(a(4), manager, host);
    let c3 = start_course(a(3), manager, host);
    let c2 = start_course(a(2), manager, host);
    let c1 = start_course(a(1), manager, host);
    let c0 = start_course(a(0), manager, host);
    assert(c7.0 == seq![stages[7]]);
    assert(!(host(stages[6]) is Failed) ==> c6 == (seq![stages[6]] + c7.0, c7.1, c7.2));
    assert(!(host(stages[5]) is Failed) ==> c5 == (seq![stages[5]] + c6.0, c6.1, c6.2));
    assert(!(host(stages[4]) is Failed) ==> c4 == (seq![stages[4]] + c5.0, c5.1, c5.2));
    assert(!(host(stages[3]) is Failed) ==> c3 == (seq![stages[3]] + c4.0, c4.1, c4.2));
    assert(!(host(stages[2]) is Failed) ==> c2 == (seq![stages[2]] + c3.0, c3.1, c3.2));
    assert(!(host(stages[1]) is Failed) ==> c1 == (seq![stages[1]] + c2.0, c2.1, c2.2));
    assert(!(host(stages[0]) is Failed) ==> c0 == (seq![stages[0]] + c1.0, c1.1, c1.2));
    let count: int = if host(stages[0]) is Failed {
        1
    } else if host(stages[1]) is Failed {
        2
    } else if host(stages[2]) is Failed {
        3
    } else if host(stages[3]) is Failed {
        4
    } else if host(stages[4]) is Failed {
        5
    } else if host(stages[5]) is Failed {
        6
    } else if host(stages[6]) is Failed {
        7
    } else {
        8
    };
    assert(c0.0 =~= stages.take(count));
    count
}

/// The whole course of starting, whatever the host answers, for every title and every target that
/// is not empty.
///
/// The simulation that is active is stopped; where that fails, nothing more is asked. Then the
/// host is asked for the stages of a new simulation, in order, up to the first that fails: so the
/// process is started only after its directory and that of its executable were created, the
/// program was copied to the executable, and the permissions of the copy were read and set. A
/// failure leaves no simulation, and is told with what the system said and the path that the
/// stage is about. Else the state is that of the new simulation, with the process that the host
/// started.
pub proof fn law_course_of_starting(
    manager: SimulationManager<Parts, Text>,
    title: Text,
    target: Parts,
    host: spec_fn(StartStage<Parts, Text>) -> Reply<Text>,
) -> (count: int)
    requires
        is_start_host(host),
        target.len() > 0,
    ensures
        ({
            let (begun, first) = manager.stop_begun();
            let (stops, stopped, stop_end) = stopping::stop_course(
                begun,
                first,
                stop_answers(host),
            );
            let (asked, left, end) = start_course(
                Start { title, target, stage: StartStage::Stop { step: first } },
                begun,
                host,
            );
            let dir = new_dir(title, host(StartStage::Clock));
            let stages = launch_stages(dir);
            match stop_end {
                StopProgress::Refused { fault } => {
                    &&& asked == as_stages(stops)
                    &&& left == stopped
                    &&& end == (StartProgress::<Parts, Text>::Refused { fault })
                },
                _ => {
                    &&& 1 <= count <= 8
                    &&& asked == as_stages(stops) + stages.take(count)
                    &&& forall|i: int|
                        0 <= i < count - 1 ==> !(host(#[trigger] stages[i]) is Failed)
                    &&& match host(stages[count - 1]) {
                        Reply::Failed { error } => {
                            &&& left == (SimulationManager::<Parts, Text> {
                                child: None,
                                target_name: None,
                                executable_path: None,
                                work_dir: None,
                            })
                            &&& end == (StartProgress::<Parts, Text>::Refused {
                                fault: launch_fault(count, dir, target, error),
                            })
                        },
                        _ => {
                            &&& count == 8
                            &&& left == (SimulationManager::<Parts, Text> {
                                child: Some(host(stages[7])->pid),
                                target_name: Some(path::portable(target)),
                                executable_path: Some(dir + target),
                                work_dir: Some(dir),
                            })
                            &&& end == StartProgress::<Parts, Text>::Finished
                        },
                    }
                },
            }
        }),
{
    lemma_start_host(host);
    let (begun, first) = manager.stop_begun();
    let inner = stop_answers(host);
    let at_first = Start { title, target, stage: StartStage::Stop { step: first } };
    lemma_course_of_stops(at_first, begun, first, host);
    stopping::law_course_of_stopping(manager, inner);
    let (stops, stopped, stop_end) = stopping::stop_course(begun, first, inner);
    if stop_end !is Refused {
        let resolve = Start { stage: StartStage::<Parts, Text>::Resolve, ..at_first };
        lemma_course_of_the_launch(resolve, stopped, host)
    } else {
        0
    }
}

/// A start that finishes has done its whole work: the host found the program, read the clock,
/// created the directory of the simulation and that of the executable, copied the program to the
/// executable, read and set the permissions of the copy, and started it; all in the one directory
/// of this start, in this order, and last of all that it was asked.
pub proof fn law_finished_start_did_everything(
    manager: SimulationManager<Parts, Text>,
    title: Text,
    target: Parts,
    host: spec_fn(StartStage<Parts, Text>) -> Reply<Text>,
)
    requires
        is_start_host(host),
        target.len() > 0,
        start_course(
            Start { title, target, stage: StartStage::Stop { step: manager.stop_begun().1 } },
            manager.stop_begun().0,
            host,
        ).2 is Finished,
    ensures
        ({
            let (begun, first) = manager.stop_begun();
            let (asked, left, end) = start_course(
                Start { title, target, stage: StartStage::Stop { step: first } },
                begun,
                host,
            );
            let dir = new_dir(title, host(StartStage::Clock));
            let n = asked.len();
            &&& host(StartStage::Resolve) is Yes
            &&& host(StartStage::Clock) is Now
            &&& host(StartStage::CreateWorkDir { dir }) is Yes
            &&& host(StartStage::CreateParent { dir }) is Yes
            &&& host(StartStage::Copy { dir }) is Yes
            &&& host(StartStage::ReadPermissions { dir }) is Yes
            &&& host(StartStage::SetPermissions { dir }) is Yes
            &&& host(StartStage::Spawn { dir }) is Started
            &&& n > 8
            &&& asked[n - 8] == StartStage::<Parts, Text>::Resolve
            &&& asked[n - 7] == StartStage::<Parts, Text>::Clock
            &&& asked[n - 6] == (StartStage::<Parts, Text>::CreateWorkDir { dir })
            &&& asked[n - 5] == (StartStage::<Parts, Text>::CreateParent { dir })
            &&& asked[n - 4] == (StartStage::<Parts, Text>::Copy { dir })
            &&& asked[n - 3] == (StartStage::<Parts, Text>::ReadPermissions { dir })
            &&& asked[n - 2] == (StartStage::<Parts, Text>::SetPermissions { dir })
            &&& asked[n - 1] == (StartStage::<Parts, Text>::Spawn { dir })
            &&& forall|i: int| 0 <= i < n - 8 ==> (#[trigger] asked[i]) is Stop
            &&& left.child == Some(host(StartStage::Spawn { dir })->pid)
            &&& left.executable_path == Some(dir + target)
        }),
{
    let count = law_course_of_starting(manager, title, target, host);
    let (begun, first) = manager.stop_begun();
    let (stops, stopped, stop_end) = stopping::stop_course(begun, first, stop_answers(host));
    let dir = new_dir(title, host(StartStage::Clock));
    let stages = launch_stages(dir);
    lemma_start_host(host);
    stopping::law_course_of_stopping(manager, stop_answers(host));
    assert(stages.take(8) =~= stages);
    assert(answers_stage(stages[0], host(stages[0])));
    assert(answers_stage(stages[1], host(stages[1])));
    assert(answers_stage(stages[2], host(stages[2])));
    assert(answers_stage(stages[3], host(stages[3])));
    assert(answers_stage(stages[4], host(stages[4])));
    assert(answers_stage(stages[5], host(stages[5])));
    assert(answers_stage(stages[6], host(stages[6])));
    assert(answers_stage(stages[7], host(stages[7])));
    assert(stops.len() > 0);
}

/// No stage is reached but through the one before it, done for the same title and target in the
/// same directory; in particular the process is started only where the permissions of the copy
/// have been set, those only where they have been read, and those only where the program has been
/// copied.
pub proof fn law_each_stage_follows_the_one_before(
    begun: Start<Parts, Text>,
    manager: SimulationManager<Parts, Text>,
    reply: Reply<Text>,
)
    ensures
        begun.start_after(manager, reply).1 matches StartProgress::Next { start: following } ==> {
            let now = begun.stage;
            let next = following.stage;
            let again = following == begun;
            &&& following.title == begun.title
            &&& following.target == begun.target
            &&& next is Stop ==> now is Stop
            &&& next is Resolve && !again ==> now is Stop
            &&& next is Clock && !again ==> now is Resolve && reply is Yes
            &&& next is CreateWorkDir && !again ==> now is Clock && reply is Now
                && next->CreateWorkDir_dir == new_dir(begun.title, reply)
            &&& next is CreateParent && !again ==> now == (StartStage::<
                Parts,
                Text,
            >::CreateWorkDir { dir: next->CreateParent_dir }) && reply is Yes
            &&& next is Copy && !again ==> now == (StartStage::<Parts, Text>::CreateParent {
                dir: next->Copy_dir,
            }) && reply is Yes
            &&& next is ReadPermissions && !again ==> now == (StartStage::<Parts, Text>::Copy {
                dir: next->ReadPermissions_dir,
            }) && reply is Yes
            &&& next is SetPermissions && !again ==> now == (StartStage::<
                Parts,
                Text,
            >::ReadPermissions { dir: next->SetPermissions_dir }) && reply is Yes
            &&& next is Spawn && !again ==> now == (StartStage::<Parts, Text>::SetPermissions {
                dir: next->Spawn_dir,
            }) && reply is Yes
        },
        begun.start_after(manager, reply).1 is Finished ==> begun.stage is Spawn && reply is Started,
{
    if reply is Now {
        paths::law_directories_by_name(begun.title, reply->process as nat, reply->nanos as nat);
    }
}

/// The permissions of the copy.
pub proof fn law_permissions_of_the_copy()
    ensures
        start::EXECUTABLE_MODE == 493,
{
}

/// The contents of the stages are those of their fields.
pub proof fn law_contents_of_stages(step: StopStep, dir: RelPath)
    ensures
        (StartStage::<RelPath, String>::Stop { step })@ == (StartStage::<Parts, Text>::Stop {
            step: step@,
        }),
        StartStage::<RelPath, String>::Resolve@ == StartStage::<Parts, Text>::Resolve,
        StartStage::<RelPath, String>::Clock@ == StartStage::<Parts, Text>::Clock,
        (StartStage::<RelPath, String>::CreateWorkDir { dir })@ == (StartStage::<
            Parts,
            Text,
        >::CreateWorkDir { dir: dir@ }),
        (StartStage::<RelPath, String>::CreateParent { dir })@ == (StartStage::<
            Parts,
            Text,
        >::CreateParent { dir: dir@ }),
        (StartStage::<RelPath, String>::Copy { dir })@ == (StartStage::<Parts, Text>::Copy {
            dir: dir@,
        }),
        (StartStage::<RelPath, String>::ReadPermissions { dir })@ == (StartStage::<
            Parts,
            Text,
        >::ReadPermissions { dir: dir@ }),
        (StartStage::<RelPath, String>::SetPermissions { dir })@ == (StartStage::<
            Parts,
            Text,
        >::SetPermissions { dir: dir@ }),
        (StartStage::<RelPath, String>::Spawn { dir })@ == (StartStage::<Parts, Text>::Spawn {
            dir: dir@,
        }),
{
}

/// The contents of a start, and of what follows a reply, are those of their fields.
pub proof fn law_contents_of_start_progress(begun: Start, fault: Fault)
    ensures
        begun@.title == begun.title@,
        begun@.target == begun.target@,
        begun@.stage == begun.stage@,
        (StartProgress::<RelPath, String>::Next { start: begun })@ == (StartProgress::<
            Parts,
            Text,
        >::Next { start: begun@ }),
        StartProgress::<RelPath, String>::Finished@ == StartProgress::<Parts, Text>::Finished,
        (StartProgress::<RelPath, String>::Refused { fault })@ == (StartProgress::<
            Parts,
            Text,
        >::Refused { fault: fault@ }),
{
}

} // verus!
