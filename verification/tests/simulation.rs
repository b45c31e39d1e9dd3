use dcautoquest::fault::Fault;
use dcautoquest::path::RelPath;
use dcautoquest::simulation::{
    Reply, SimulationManager, SimulationStatus, StopProgress, StopStep,
};
use dcautoquest::start::{
    start_checked, start_simulation, Launch, Start, StartProgress, StartStage, EXECUTABLE_MODE,
};
use dcautoquest::target::sanitize_target_path;

fn path(parts: &[&str]) -> RelPath {
    RelPath { parts: parts.iter().map(|part| part.to_string()).collect() }
}

fn failed(error: &str) -> Reply {
    Reply::Failed { error: error.to_string() }
}

fn work_dir() -> RelPath {
    path(&["DCAutoQuest", "fake_games", "Some Game-7-99"])
}

fn running() -> SimulationManager {
    SimulationManager {
        child: Some(31),
        target_name: Some("bin/game.exe".to_string()),
        executable_path: Some(work_dir().join(&path(&["bin", "game.exe"]))),
        work_dir: Some(work_dir()),
    }
}

/// Stops with a host that answers in turn; returns the steps that it was asked for and the end.
fn stop(manager: &mut SimulationManager, replies: Vec<Reply>) -> (Vec<String>, StopProgress) {
    let mut asked = Vec::new();
    let mut progress = StopProgress::Next { step: manager.stop_active() };
    for reply in replies {
        match progress {
            StopProgress::Next { step } => {
                asked.push(format!("{step:?}").split(' ').next().unwrap().to_string());
                progress = manager.stop_next(step, reply);
            }
            end => panic!("stopped already: {end:?}"),
        }
    }
    (asked, progress)
}

/// Starts with a host that succeeds until `fails` names the stage.
fn start(manager: &mut SimulationManager, fails: &str) -> (Vec<String>, StartProgress) {
    let mut asked = Vec::new();
    let begun = start_simulation(manager, "  Some   Game. ", " bin \\ game.exe", false).unwrap();
    let mut progress = StartProgress::Next { start: begun };
    loop {
        match progress {
            StartProgress::Next { start } => {
                let stage = format!("{:?}", start.stage).split(' ').next().unwrap().to_string();
                asked.push(stage.clone());
                let reply = if stage == fails {
                    failed("boom")
                } else {
                    match &start.stage {
                        StartStage::Clock => Reply::Now { process: 7, nanos: 99 },
                        StartStage::Spawn { .. } => Reply::Started { pid: 31 },
                        _ => Reply::Yes,
                    }
                };
                progress = start.start_next(manager, reply);
            }
            end => return (asked, end),
        }
    }
}

#[test]
fn stopping_a_running_simulation_leaves_nothing() {
    let mut manager = running();
    let (asked, end) = stop(
        &mut manager,
        vec![
            Reply::No,
            Reply::Yes,
            failed("no child"),
            Reply::Yes,
            Reply::Yes,
            failed("not empty"),
            failed("not empty"),
        ],
    );
    assert_eq!(
        asked,
        ["Poll", "Kill", "Wait", "Check", "Remove", "RemoveGames", "RemoveRoot"]
    );
    assert_eq!(end, StopProgress::Finished);
    assert_eq!(manager, SimulationManager::default());
}

#[test]
fn stopping_asks_an_ended_child_for_nothing_more() {
    let mut manager = running();
    let (asked, end) =
        stop(&mut manager, vec![Reply::Yes, Reply::No, Reply::Yes, Reply::Yes]);
    assert_eq!(asked, ["Poll", "Check", "RemoveGames", "RemoveRoot"]);
    assert_eq!(end, StopProgress::Finished);
    assert_eq!(manager, SimulationManager::default());
}

#[test]
fn a_child_that_cannot_be_ended_fails_the_stop() {
    let mut manager = running();
    let (_, end) = stop(&mut manager, vec![Reply::No, failed("denied")]);
    let fault = Fault::KillChild { error: "denied".to_string() };
    assert_eq!(fault.message("", ""), "falha ao finalizar processo filho: denied");
    assert_eq!(end, StopProgress::Refused { fault });
    assert_eq!(manager, SimulationManager { child: None, ..running() });
}

#[test]
fn a_child_in_an_unknown_state_fails_the_stop() {
    let mut manager = running();
    let (asked, end) = stop(&mut manager, vec![failed("gone"), failed("denied")]);
    assert_eq!(asked, ["Poll", "Abandon"]);
    let fault = Fault::QueryChild { error: "gone".to_string() };
    assert_eq!(fault.message("", ""), "falha ao consultar processo filho: gone");
    assert_eq!(end, StopProgress::Refused { fault });
    assert_eq!(manager, SimulationManager { child: None, ..running() });
}

#[test]
fn a_directory_that_cannot_be_removed_fails_the_stop_once() {
    let mut manager = running();
    let (_, end) = stop(&mut manager, vec![Reply::Yes, Reply::Yes, failed("busy")]);
    let fault = Fault::RemoveWorkDir { dir: work_dir(), error: "busy".to_string() };
    assert_eq!(fault.place(), Some(&work_dir()));
    assert_eq!(
        fault.message("/tmp/x", "/bin/app"),
        "falha ao remover diretório temporário /tmp/x: busy"
    );
    assert_eq!(end, StopProgress::Refused { fault });
    assert_eq!(manager, SimulationManager { child: None, work_dir: None, ..running() });
    let (asked, again) = stop(&mut manager, vec![Reply::Yes, Reply::Yes]);
    assert_eq!(asked, ["RemoveGames", "RemoveRoot"]);
    assert_eq!(again, StopProgress::Finished);
    assert_eq!(manager, SimulationManager::default());
}

#[test]
fn stopping_nothing_succeeds() {
    let mut manager = SimulationManager::default();
    let (asked, end) = stop(&mut manager, vec![failed("none"), failed("none")]);
    assert_eq!(asked, ["RemoveGames", "RemoveRoot"]);
    assert_eq!(end, StopProgress::Finished);
    let status = manager.status(&Reply::No);
    assert_eq!(
        status,
        SimulationStatus { active: false, pid: None, target_name: None, executable_path: None }
    );
}

#[test]
fn a_reply_to_something_else_changes_nothing() {
    let mut manager = running();
    let step = manager.stop_active();
    assert_eq!(step, StopStep::Poll);
    let before = SimulationManager { child: None, ..running() };
    let again = manager.stop_next(step, Reply::Started { pid: 1 });
    assert_eq!(again, StopProgress::Next { step: StopStep::Poll });
    assert_eq!(manager, before);
}

#[test]
fn the_status_follows_the_child() {
    let mut manager = running();
    let shown = manager.status(&Reply::No);
    assert!(shown.active);
    assert_eq!(shown.pid, Some(31));
    assert_eq!(shown.target_name, Some("bin/game.exe".to_string()));
    assert_eq!(shown.executable_path, running().executable_path);
    assert_eq!(manager.status(&failed("unknown")).pid, Some(31));
    let ended = manager.status(&Reply::Yes);
    assert!(!ended.active);
    assert_eq!(ended.pid, None);
    assert_eq!(ended.target_name, Some("bin/game.exe".to_string()));
    assert_eq!(manager.child, None);
    assert_eq!(manager.work_dir, Some(work_dir()));
}

#[test]
fn starting_runs_through_its_stages() {
    let mut manager = SimulationManager::default();
    let (asked, end) = start(&mut manager, "");
    assert_eq!(
        asked,
        [
            "Stop",
            "Stop",
            "Resolve",
            "Clock",
            "CreateWorkDir",
            "CreateParent",
            "Copy",
            "ReadPermissions",
            "SetPermissions",
            "Spawn"
        ]
    );
    assert_eq!(end, StartProgress::Finished);
    assert_eq!(manager, running());
    assert_eq!(EXECUTABLE_MODE, 0o755);
}

#[test]
fn starting_replaces_the_active_simulation() {
    let mut manager = SimulationManager { child: Some(5), ..running() };
    manager.target_name = Some("old".to_string());
    let (asked, end) = start(&mut manager, "");
    assert_eq!(asked.iter().filter(|stage| *stage == "Stop").count(), 5);
    assert_eq!(end, StartProgress::Finished);
    assert_eq!(manager, running());
}

#[test]
fn stopping_undoes_starting() {
    let mut manager = SimulationManager::default();
    start(&mut manager, "");
    let (_, end) = stop(
        &mut manager,
        vec![Reply::Yes, Reply::Yes, Reply::Yes, Reply::Yes, Reply::Yes],
    );
    assert_eq!(end, StopProgress::Finished);
    assert_eq!(manager, SimulationManager::default());
}

#[test]
fn a_refused_target_changes_nothing() {
    let mut manager = running();
    let fault = start_simulation(&mut manager, "Game", "../game", false).unwrap_err();
    assert_eq!(fault.place(), None);
    assert_eq!(fault.message("", ""), "caminho do executável contém parte inválida");
    assert_eq!(manager, running());
}

#[test]
fn a_failed_stop_fails_the_start() {
    let mut manager = running();
    let begun: Start = start_simulation(&mut manager, "New", "new.exe", false).unwrap();
    assert_eq!(begun.title, "New");
    assert_eq!(begun.target, path(&["new.exe"]));
    let StartProgress::Next { start } = begun.start_next(&mut manager, Reply::No) else {
        panic!("the child was not to be ended");
    };
    let fault = Fault::KillChild { error: "denied".to_string() };
    assert_eq!(
        start.start_next(&mut manager, failed("denied")),
        StartProgress::Refused { fault }
    );
    assert_eq!(manager, SimulationManager { child: None, ..running() });
}

#[test]
fn every_stage_has_its_fault() {
    let exe = work_dir().join(&path(&["bin", "game.exe"]));
    let cases: Vec<(&str, Option<RelPath>, &str)> = vec![
        ("Resolve", None, "falha ao resolver binário atual: boom"),
        ("Clock", None, "relógio do sistema inválido: boom"),
        ("CreateWorkDir", Some(work_dir()), "falha ao criar diretório temporário P: boom"),
        (
            "CreateParent",
            Some(work_dir().join(&path(&["bin"]))),
            "falha ao criar diretório do executável simulado P: boom",
        ),
        ("Copy", Some(exe.duplicate()), "falha ao copiar OWN para P: boom"),
        ("ReadPermissions", Some(exe.duplicate()), "falha ao ler permissões de P: boom"),
        ("SetPermissions", Some(exe.duplicate()), "falha ao aplicar chmod 755 em P: boom"),
        ("Spawn", Some(exe.duplicate()), "falha ao iniciar processo simulado P: boom"),
    ];
    for (stage, place, message) in cases {
        let mut manager = running();
        match start(&mut manager, stage) {
            (asked, StartProgress::Refused { fault }) => {
                assert_eq!(asked.last().map(String::as_str), Some(stage));
                assert_eq!(fault.place(), place.as_ref());
                assert_eq!(fault.message("P", "OWN"), message);
            }
            other => panic!("{stage}: {other:?}"),
        }
        assert_eq!(manager, SimulationManager::default());
    }
}

#[test]
fn a_refused_start_has_the_message_of_the_check() {
    for name in ["", "/x", "a//b", "a.", "a b", "nul.txt"] {
        let message = sanitize_target_path(name).unwrap_err();
        for (title, poisoned) in [("", false), ("Some Game", false), ("Some Game", true)] {
            let mut manager = running();
            let fault = start_simulation(&mut manager, title, name, poisoned).unwrap_err();
            assert_eq!(fault, Fault::Target { message: message.clone() });
            assert_eq!(manager, running());
        }
    }
}

#[test]
fn the_result_of_the_check_decides_the_start() {
    let mut manager = running();
    let refusal = start_checked(&mut manager, "Game", Err("no".to_string()), true);
    assert_eq!(refusal, Err(Fault::Target { message: "no".to_string() }));
    assert_eq!(manager, running());
    let target = path(&["x", "y.exe"]);
    let start = start_checked(&mut manager, " New  Game", Ok(target), false).unwrap();
    assert_eq!(start.title, "New Game");
    assert_eq!(start.target, path(&["x", "y.exe"]));
    assert_eq!(start.stage, StartStage::Stop { step: StopStep::Poll });
    assert_eq!(manager, SimulationManager { child: None, ..running() });
}

#[test]
fn the_process_starts_in_the_directory_of_the_simulation() {
    let mut manager = SimulationManager::default();
    let start = start_simulation(&mut manager, "Some Game", "bin/game.exe", false).unwrap();
    assert_eq!(
        start.launch_in(&work_dir()),
        Launch {
            program: work_dir().join(&path(&["bin", "game.exe"])),
            args: vec![
                "--idle-daemon".to_string(),
                "--window-title".to_string(),
                "Some Game".to_string()
            ],
            current_dir: work_dir(),
        }
    );
}

#[test]
fn a_poisoned_lock_refuses_requests() {
    let message = "estado de simulação está bloqueado/contaminado";
    let mut manager = running();
    let fault = manager.stop_simulation(true).unwrap_err();
    assert_eq!(fault, Fault::Poisoned);
    assert_eq!(fault.place(), None);
    assert_eq!(fault.message("P", "OWN"), message);
    assert_eq!(manager, running());
    let fault = start_simulation(&mut manager, "Game", "game.exe", true).unwrap_err();
    assert_eq!(fault.message("P", "OWN"), message);
    assert_eq!(manager, running());
}

#[test]
fn a_request_to_stop_after_a_start_leaves_an_inactive_status() {
    let mut manager = SimulationManager::default();
    start(&mut manager, "");
    let mut step = manager.stop_simulation(false).unwrap();
    assert_eq!(step, StopStep::Poll);
    loop {
        match manager.stop_next(step, Reply::Yes) {
            StopProgress::Next { step: following } => step = following,
            end => {
                assert_eq!(end, StopProgress::Finished);
                break;
            }
        }
    }
    assert_eq!(
        manager.status(&Reply::Yes),
        SimulationStatus { active: false, pid: None, target_name: None, executable_path: None }
    );
}
