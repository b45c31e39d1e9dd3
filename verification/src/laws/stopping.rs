//! The course of stopping a simulation: what the host is asked, and what that comes to.

use vstd::prelude::*;
use crate::fault::Fault;
use crate::laws::paths;
use crate::path::{Parts, RelPath};
use crate::simulation;
use crate::simulation::{Reply, SimulationManager, SimulationStatus, StopProgress, StopStep};
use crate::text::Text;

verus! {

/// Replies that answer a step: whether a child has ended may be unknown, whether a directory
/// exists is always known, and anything else is done or fails.
pub open spec fn answers_step(step: StopStep<Parts, Text>, reply: Reply<Text>) -> bool {
    if step is Poll {
        reply is Yes || reply is No || reply is Failed
    } else if step is Check {
        reply is Yes || reply is No
    } else {
        reply is Yes || reply is Failed
    }
}

/// Hosts that answer every step.
pub open spec fn is_stop_host(host: spec_fn(StopStep<Parts, Text>) -> Reply<Text>) -> bool {
    forall|step: StopStep<Parts, Text>| answers_step(step, #[trigger] host(step))
}

/// Which replies answer a step; any other reply changes nothing, and the step is asked again.
pub proof fn law_answers_to_steps(
    manager: SimulationManager<Parts, Text>,
    step: StopStep<Parts, Text>,
    reply: Reply<Text>,
)
    ensures
        step.is_answered_by(reply) <==> answers_step(step, reply),
        !answers_step(step, reply) ==> manager.stop_after(step, reply) == (
            manager,
            StopProgress::<Parts, Text>::Next { step },
        ),
{
}

/// The steps that the host is asked for from a step on, the state that is left, and the end.
pub open spec fn stop_course(
    manager: SimulationManager<Parts, Text>,
    step: StopStep<Parts, Text>,
    host: spec_fn(StopStep<Parts, Text>) -> Reply<Text>,
) -> (Seq<StopStep<Parts, Text>>, SimulationManager<Parts, Text>, StopProgress<Parts, Text>)
    decreases step.steps_left(),
    when simulation::answers_stop(host)
{
    let (next, progress) = manager.stop_after(step, host(step));
    match progress {
        StopProgress::Next { step: following } => {
            proof {
                assert(step.is_answered_by(host(step)));
            }
            let (asked, left, end) = stop_course(next, following, host);
            (seq![step] + asked, left, end)
        },
        _ => (seq![step], next, progress),
    }
}

proof fn lemma_stop_host(host: spec_fn(StopStep<Parts, Text>) -> Reply<Text>)
    requires
        is_stop_host(host),
    ensures
        simulation::answers_stop(host),
{
    assert forall|step: StopStep<Parts, Text>| step.is_answered_by(#[trigger] host(step)) by {
        assert(answers_step(step, host(step)));
    }
}

proof fn lemma_course_of_the_rest(
    manager: SimulationManager<Parts, Text>,
    host: spec_fn(StopStep<Parts, Text>) -> Reply<Text>,
)
    requires
        is_stop_host(host),
        manager.child is None,
        manager.work_dir is None,
    ensures
        stop_course(manager, StopStep::RemoveGames, host) == (
            seq![StopStep::<Parts, Text>::RemoveGames, StopStep::<Parts, Text>::RemoveRoot],
            SimulationManager::<Parts, Text> {
                child: None,
                target_name: None,
                executable_path: None,
                work_dir: None,
            },
            StopProgress::<Parts, Text>::Finished,
        ),
{
    lemma_stop_host(host);
    let games = StopStep::<Parts, Text>::RemoveGames;
    let root = StopStep::<Parts, Text>::RemoveRoot;
    assert(answers_step(games, host(games)));
    assert(answers_step(root, host(root)));
    let (asked, left, end) = stop_course(manager, root, host);
    assert(asked == seq![root]);
    assert(seq![games] + asked =~= seq![games, root]);
}

/// The steps for the directory of a simulation that has one, and for those above it: the host is
/// asked whether it exists, and to remove it only where it does; those above are tried unless
/// that failed.
pub open spec fn steps_for_directory(
    dir: Option<Parts>,
    host: spec_fn(StopStep<Parts, Text>) -> Reply<Text>,
) -> Seq<StopStep<Parts, Text>> {
    match dir {
        Some(dir) => if host(StopStep::Check { dir }) is No {
            seq![StopStep::Check { dir }, StopStep::RemoveGames, StopStep::RemoveRoot]
        } else if host(StopStep::Remove { dir }) is Failed {
            seq![StopStep::Check { dir }, StopStep::Remove { dir }]
        } else {
            seq![
                StopStep::Check { dir },
                StopStep::Remove { dir },
                StopStep::RemoveGames,
                StopStep::RemoveRoot,
            ]
        },
        None => seq![StopStep::RemoveGames, StopStep::RemoveRoot],
    }
}

/// Whether the directory is there and cannot be removed.
pub open spec fn directory_stays(
    dir: Option<Parts>,
    host: spec_fn(StopStep<Parts, Text>) -> Reply<Text>,
) -> bool {
    &&& dir is Some
    &&& host(StopStep::Check { dir: dir->0 }) is Yes
    &&& host(StopStep::Remove { dir: dir->0 }) is Failed
}

proof fn lemma_course_of_the_directory(
    manager: SimulationManager<Parts, Text>,
    host: spec_fn(StopStep<Parts, Text>) -> Reply<Text>,
)
    requires
        is_stop_host(host),
        manager.child is None,
    ensures
        ({
            let (begun, step) = manager.released();
            let (asked, left, end) = stop_course(begun, step, host);
            &&& asked == steps_for_directory(manager.work_dir, host)
            &&& if directory_stays(manager.work_dir, host) {
                let dir = manager.work_dir->0;
                &&& left == (SimulationManager { work_dir: None, ..manager })
                &&& end == (StopProgress::<Parts, Text>::Refused {
                    fault: Fault::RemoveWorkDir {
                        dir,
                        error: host(StopStep::Remove { dir })->error,
                    },
                })
            } else {
                &&& left == (SimulationManager::<Parts, Text> {
                    child: None,
                    target_name: None,
                    executable_path: None,
                    work_dir: None,
                })
                &&& end == StopProgress::<Parts, Text>::Finished
            }
        }),
{
    lemma_stop_host(host);
    let (begun, step) = manager.released();
    lemma_course_of_the_rest(begun, host);
    let rest = seq![StopStep::<Parts, Text>::RemoveGames, StopStep::<Parts, Text>::RemoveRoot];
    if let Some(dir) = manager.work_dir {
        let check = StopStep::<Parts, Text>::Check { dir };
        let remove = StopStep::<Parts, Text>::Remove { dir };
        assert(answers_step(check, host(check)));
        assert(answers_step(remove, host(remove)));
        if host(check) is No {
            assert(seq![check] + rest =~= steps_for_directory(manager.work_dir, host));
        } else {
            let (asked, left, end) = stop_course(begun, remove, host);
            if host(remove) is Yes {
                assert(asked =~= seq![remove] + rest);
            } else {
                assert(asked =~= seq![remove]);
            }
            assert(seq![check] + asked =~= steps_for_directory(manager.work_dir, host));
        }
    }
}

/// The whole course of stopping, whatever the host answers.
///
/// Only where there is a child is the host asked whether it has ended. Where that is unknown, the
/// child is given up, and stopping fails with what the system said. A child that has not ended is
/// ended, and waited for; where it cannot be ended, stopping fails. Then come the directory and
/// those above it; where an existing directory cannot be removed, stopping fails. Else nothing of
/// the simulation is left. No failure leaves a child, nor one over the directory that directory.
pub proof fn law_course_of_stopping(
    manager: SimulationManager<Parts, Text>,
    host: spec_fn(StopStep<Parts, Text>) -> Reply<Text>,
)
    requires
        is_stop_host(host),
    ensures
        ({
            let (begun, first) = manager.stop_begun();
            let (asked, left, end) = stop_course(begun, first, host);
            let poll = host(StopStep::Poll);
            let kill = host(StopStep::Kill);
            if manager.child is Some && poll is Failed {
                &&& asked == seq![
                    StopStep::<Parts, Text>::Poll,
                    StopStep::<Parts, Text>::Abandon { error: poll->error },
                ]
                &&& left == (SimulationManager { child: None, ..manager })
                &&& end == (StopProgress::<Parts, Text>::Refused {
                    fault: Fault::QueryChild { error: poll->error },
                })
            } else if manager.child is Some && poll is No && kill is Failed {
                &&& asked == seq![StopStep::<Parts, Text>::Poll, StopStep::<Parts, Text>::Kill]
                &&& left == (SimulationManager { child: None, ..manager })
                &&& end == (StopProgress::<Parts, Text>::Refused {
                    fault: Fault::KillChild { error: kill->error },
                })
            } else {
                let for_child = if manager.child is None {
                    seq![]
                } else if poll is Yes {
                    seq![StopStep::<Parts, Text>::Poll]
                } else {
                    seq![
                        StopStep::<Parts, Text>::Poll,
                        StopStep::<Parts, Text>::Kill,
                        StopStep::<Parts, Text>::Wait,
                    ]
                };
                &&& asked == for_child + steps_for_directory(manager.work_dir, host)
                &&& if directory_stays(manager.work_dir, host) {
                    let dir = manager.work_dir->0;
                    &&& left == (SimulationManager { child: None, work_dir: None, ..manager })
                    &&& end == (StopProgress::<Parts, Text>::Refused {
                        fault: Fault::RemoveWorkDir {
                            dir,
                            error: host(StopStep::Remove { dir })->error,
                        },
                    })
                } else {
                    &&& left == (SimulationManager::<Parts, Text> {
                        child: None,
                        target_name: None,
                        executable_path: None,
                        work_dir: None,
                    })
                    &&& end == StopProgress::<Parts, Text>::Finished
                }
            }
        }),
{
    lemma_stop_host(host);
    let m = SimulationManager { child: None, ..manager };
    lemma_course_of_the_directory(m, host);
    let for_dir = steps_for_directory(manager.work_dir, host);
    if manager.child is Some {
        let (next, step) = m.released();
        let poll = StopStep::<Parts, Text>::Poll;
        let kill = StopStep::<Parts, Text>::Kill;
        let wait = StopStep::<Parts, Text>::Wait;
        assert(answers_step(poll, host(poll)));
        assert(answers_step(kill, host(kill)));
        assert(answers_step(wait, host(wait)));
        match host(poll) {
            Reply::Failed { error } => {
                let abandon = StopStep::<Parts, Text>::Abandon { error };
                assert(answers_step(abandon, host(abandon)));
                assert(stop_course(m, abandon, host).0 =~= seq![abandon]);
                assert(seq![poll] + seq![abandon] =~= seq![poll, abandon]);
            },
            Reply::No => {
                if host(kill) is Yes {
                    assert(stop_course(m, wait, host).0 =~= seq![wait] + for_dir);
                    assert(stop_course(m, kill, host).0 =~= seq![kill] + (seq![wait] + for_dir));
                    assert(seq![poll] + (seq![kill] + (seq![wait] + for_dir)) =~= seq![
                        poll,
                        kill,
                        wait,
                    ] + for_dir);
                } else {
                    assert(stop_course(m, kill, host).0 =~= seq![kill]);
                    assert(seq![poll] + seq![kill] =~= seq![poll, kill]);
                }
            },
            _ => {
                assert(stop_course(m, poll, host).0 =~= seq![poll] + for_dir);
            },
        }
    } else {
        assert(manager == m);
        assert(Seq::<StopStep<Parts, Text>>::empty() + for_dir =~= for_dir);
    }
}

/// The status: a child that has ended is forgotten and nothing else changes; what is shown is
/// whether there is a child and its number, and the target and the executable that are known.
pub proof fn law_status(manager: SimulationManager<Parts, Text>, polled: Reply<Text>)
    ensures
        ({
            let left = manager.polled(polled);
            let shown = left.shown();
            &&& left.child == if polled is Yes {
                None
            } else {
                manager.child
            }
            &&& left.target_name == manager.target_name
            &&& left.executable_path == manager.executable_path
            &&& left.work_dir == manager.work_dir
            &&& shown.active <==> left.child is Some
            &&& shown.pid == left.child
            &&& shown.target_name == manager.target_name
            &&& shown.executable_path == manager.executable_path
        }),
{
}

/// The state without a simulation holds nothing.
pub proof fn law_empty_state()
    ensures
        SimulationManager::<Parts, Text>::empty() == (SimulationManager::<Parts, Text> {
            child: None,
            target_name: None,
            executable_path: None,
            work_dir: None,
        }),
{
}

/// In every state of the application, a child has a directory directly below the two of the
/// application, and wherever there is such a directory the target is known and the executable lies
/// within it.
pub proof fn law_states_of_the_application(manager: SimulationManager<Parts, Text>)
    requires
        manager.wf(),
    ensures
        manager.child is Some ==> manager.work_dir is Some,
        manager.work_dir matches Some(dir) ==> {
            &&& dir.len() == 3
            &&& dir[0] == "DCAutoQuest"@
            &&& dir[1] == "fake_games"@
            &&& manager.target_name is Some
            &&& manager.executable_path matches Some(file)
            &&& file.len() > 3
            &&& file[0] == dir[0]
            &&& file[1] == dir[1]
            &&& file[2] == dir[2]
        },
{
    if let Some(dir) = manager.work_dir {
        paths::law_place_of_work_dirs(dir);
        let file = manager.executable_path->0;
        assert(file.take(3)[0] == file[0]);
        assert(file.take(3)[1] == file[1]);
        assert(file.take(3)[2] == file[2]);
    }
}

/// The contents of a state are those of its fields.
pub proof fn law_content_of_a_state(manager: SimulationManager)
    ensures
        manager@.child == manager.child,
        manager@.target_name is Some <==> manager.target_name is Some,
        manager.target_name matches Some(s) ==> manager@.target_name == Some(s@),
        manager@.executable_path is Some <==> manager.executable_path is Some,
        manager.executable_path matches Some(p) ==> manager@.executable_path == Some(p@),
        manager@.work_dir is Some <==> manager.work_dir is Some,
        manager.work_dir matches Some(p) ==> manager@.work_dir == Some(p@),
{
}

/// The contents of a status are those of its fields.
pub proof fn law_content_of_a_status(status: SimulationStatus)
    ensures
        status@.active == status.active,
        status@.pid == status.pid,
        status@.target_name is Some <==> status.target_name is Some,
        status.target_name matches Some(s) ==> status@.target_name == Some(s@),
        status@.executable_path is Some <==> status.executable_path is Some,
        status.executable_path matches Some(p) ==> status@.executable_path == Some(p@),
{
}

/// The contents of the replies and of the steps are those of their fields.
pub proof fn law_contents_of_steps(error: String, dir: RelPath, pid: u32, nanos: u128)
    ensures
        Reply::<String>::Yes@ == Reply::<Text>::Yes,
        Reply::<String>::No@ == Reply::<Text>::No,
        (Reply::<String>::Started { pid })@ == (Reply::<Text>::Started { pid }),
        (Reply::<String>::Now { process: pid, nanos })@ == (Reply::<Text>::Now {
            process: pid,
            nanos,
        }),
        (Reply::<String>::Failed { error })@ == (Reply::<Text>::Failed { error: error@ }),
        StopStep::<RelPath, String>::Poll@ == StopStep::<Parts, Text>::Poll,
        StopStep::<RelPath, String>::Kill@ == StopStep::<Parts, Text>::Kill,
        StopStep::<RelPath, String>::Wait@ == StopStep::<Parts, Text>::Wait,
        (StopStep::<RelPath, String>::Abandon { error })@ == (StopStep::<Parts, Text>::Abandon {
            error: error@,
        }),
        (StopStep::<RelPath, String>::Check { dir })@ == (StopStep::<Parts, Text>::Check {
            dir: dir@,
        }),
        (StopStep::<RelPath, String>::Remove { dir })@ == (StopStep::<Parts, Text>::Remove {
            dir: dir@,
        }),
        StopStep::<RelPath, String>::RemoveGames@ == StopStep::<Parts, Text>::RemoveGames,
        StopStep::<RelPath, String>::RemoveRoot@ == StopStep::<Parts, Text>::RemoveRoot,
{
}

/// The contents of what follows a reply are those of its fields.
pub proof fn law_contents_of_stop_progress(step: StopStep, fault: Fault)
    ensures
        (StopProgress::<RelPath, String>::Next { step })@ == (StopProgress::<Parts, Text>::Next {
            step: step@,
        }),
        StopProgress::<RelPath, String>::Finished@ == StopProgress::<Parts, Text>::Finished,
        (StopProgress::<RelPath, String>::Refused { fault })@ == (StopProgress::<
            Parts,
            Text,
        >::Refused { fault: fault@ }),
{
}

} // verus!
