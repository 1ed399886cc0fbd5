use cursor_helper::error::ProcessError;
use cursor_helper::process::{
    exit_cursor, find_editor_processes, get_cursor_path, is_editor_process, restart_cursor, still_running,
    ExitState, ExitStep, ProcessHandle, RelaunchEvent, RelaunchState, RelaunchStep,
};

fn process(pid: u32, name: &str) -> ProcessHandle {
    ProcessHandle { pid, name: String::from(name) }
}

#[test]
fn editor_is_known_by_its_name_whatever_the_case() {
    assert!(is_editor_process("cursor"));
    assert!(is_editor_process("Cursor"));
    assert!(is_editor_process("CURSOR"));
    assert!(is_editor_process("cursor.exe"));
    assert!(is_editor_process("Cursor.EXE"));
    assert!(!is_editor_process("cursor "));
    assert!(!is_editor_process("cursors"));
    assert!(!is_editor_process("cursor.ex"));
    assert!(!is_editor_process("cursor_exe"));
    assert!(!is_editor_process("Cursor Helper"));
    assert!(!is_editor_process(""));
    assert!(!is_editor_process("çursor"));
}

#[test]
fn editor_processes_are_collected_in_order() {
    let snapshot = vec![process(9, "bash"), process(4, "Cursor"), process(7, "cursor.exe"), process(1, "init")];
    assert_eq!(find_editor_processes(&snapshot), vec![4, 7]);
    assert_eq!(find_editor_processes(&Vec::new()), Vec::<u32>::new());
}

#[test]
fn survivors_are_the_targets_still_listed() {
    let snapshot = vec![process(7, "anything"), process(1, "init")];
    assert_eq!(still_running(&vec![4, 7], &snapshot), vec![7]);
    assert_eq!(still_running(&vec![4, 5], &snapshot), Vec::<u32>::new());
    assert_eq!(still_running(&vec![1, 7, 1], &snapshot), vec![1, 7, 1]);
}

#[test]
fn nothing_to_stop_ends_well_at_once() {
    let snapshot = vec![process(1, "init")];
    assert_eq!(
        exit_cursor(ExitState::Idle { max_wait: 5 }, &snapshot),
        (ExitState::Done { stopped: true }, ExitStep::Finish(true))
    );
}

#[test]
fn editor_is_killed_then_polled() {
    let running = vec![process(4, "Cursor"), process(7, "cursor")];
    let (state, step) = exit_cursor(ExitState::Idle { max_wait: 1 }, &running);
    assert_eq!(step, ExitStep::Kill(vec![4, 7]));
    assert_eq!(state, ExitState::Polling { targets: vec![4, 7], polls_left: 1 });
    let (state, step) = exit_cursor(state, &vec![process(7, "cursor")]);
    assert_eq!(step, ExitStep::Sleep { seconds: 1 });
    assert_eq!(state, ExitState::Polling { targets: vec![4, 7], polls_left: 0 });
    let (state, step) = exit_cursor(state, &vec![process(8, "cursor")]);
    assert_eq!(step, ExitStep::Finish(true));
    assert_eq!(state, ExitState::Done { stopped: true });
}

#[test]
fn survivor_after_the_last_pause_ends_badly() {
    let running = vec![process(4, "Cursor")];
    let (state, _) = exit_cursor(ExitState::Idle { max_wait: 2 }, &running);
    let (state, step) = exit_cursor(state, &running);
    assert_eq!(step, ExitStep::Sleep { seconds: 1 });
    let (state, step) = exit_cursor(state, &running);
    assert_eq!(step, ExitStep::Sleep { seconds: 1 });
    let (state, step) = exit_cursor(state, &running);
    assert_eq!(step, ExitStep::Finish(false));
    assert_eq!(state, ExitState::Done { stopped: false });
    assert_eq!(exit_cursor(state, &running), (ExitState::Done { stopped: false }, ExitStep::Finish(false)));
}

#[test]
fn without_pauses_the_first_look_decides() {
    let running = vec![process(4, "Cursor")];
    let (state, step) = exit_cursor(ExitState::Idle { max_wait: 0 }, &running);
    assert_eq!(step, ExitStep::Kill(vec![4]));
    assert_eq!(exit_cursor(state.clone(), &running).1, ExitStep::Finish(false));
    assert_eq!(exit_cursor(state, &Vec::new()).1, ExitStep::Finish(true));
}

#[test]
fn first_present_candidate_is_the_executable() {
    let candidates = vec![String::from("/usr/bin/cursor"), String::from("/usr/local/bin/cursor")];
    assert_eq!(get_cursor_path(&candidates, &vec![true, true]), Ok(String::from("/usr/bin/cursor")));
    assert_eq!(get_cursor_path(&candidates, &vec![false, true]), Ok(String::from("/usr/local/bin/cursor")));
    assert_eq!(get_cursor_path(&candidates, &vec![true]), Ok(String::from("/usr/bin/cursor")));
    assert_eq!(get_cursor_path(&candidates, &vec![false, false]), Err(ProcessError::NotFound));
    assert_eq!(get_cursor_path(&candidates, &vec![false]), Err(ProcessError::NotFound));
    assert_eq!(get_cursor_path(&candidates, &Vec::new()), Err(ProcessError::NotFound));
    assert_eq!(get_cursor_path(&Vec::new(), &vec![true]), Err(ProcessError::NotFound));
}

#[test]
fn restart_runs_through_its_states() {
    let (state, step) = restart_cursor(RelaunchState::Idle, &RelaunchEvent::Start).unwrap();
    assert_eq!((state, step), (RelaunchState::Terminating, RelaunchStep::Terminate { max_wait_seconds: 1 }));
    let (state, step) = restart_cursor(state, &RelaunchEvent::Stopped(true)).unwrap();
    assert_eq!((state, step), (RelaunchState::Waiting, RelaunchStep::Wait { seconds: 1 }));
    let (state, step) = restart_cursor(state, &RelaunchEvent::WaitElapsed).unwrap();
    assert_eq!((state, step), (RelaunchState::Locating, RelaunchStep::Locate));
    let (state, step) = restart_cursor(state, &RelaunchEvent::Located(Some(String::from("/usr/bin/cursor")))).unwrap();
    assert_eq!((state, step), (RelaunchState::Spawning, RelaunchStep::Spawn(String::from("/usr/bin/cursor"))));
    let (state, step) = restart_cursor(state, &RelaunchEvent::Spawned(Ok(()))).unwrap();
    assert_eq!((state, step), (RelaunchState::Done, RelaunchStep::Finish(Ok(()))));
    assert_eq!(restart_cursor(state, &RelaunchEvent::Start), None);
}

#[test]
fn restart_does_not_start_beside_a_survivor() {
    assert_eq!(
        restart_cursor(RelaunchState::Terminating, &RelaunchEvent::Stopped(false)),
        Some((RelaunchState::TerminationFailed, RelaunchStep::Finish(Err(ProcessError::TerminationIncomplete))))
    );
    assert_eq!(restart_cursor(RelaunchState::TerminationFailed, &RelaunchEvent::WaitElapsed), None);
    assert_eq!(
        restart_cursor(RelaunchState::TerminationFailed, &RelaunchEvent::Located(Some(String::from("x")))),
        None
    );
}

#[test]
fn restart_reports_a_missing_executable_and_a_failed_start() {
    assert_eq!(
        restart_cursor(RelaunchState::Locating, &RelaunchEvent::Located(None)),
        Some((RelaunchState::LocateFailed, RelaunchStep::Finish(Err(ProcessError::NotFound))))
    );
    assert_eq!(
        restart_cursor(RelaunchState::Spawning, &RelaunchEvent::Spawned(Err(String::from("denied")))),
        Some((
            RelaunchState::SpawnFailed,
            RelaunchStep::Finish(Err(ProcessError::SpawnFailed(String::from("denied"))))
        ))
    );
    assert_eq!(restart_cursor(RelaunchState::SpawnFailed, &RelaunchEvent::Spawned(Ok(()))), None);
    assert_eq!(restart_cursor(RelaunchState::LocateFailed, &RelaunchEvent::Start), None);
}

#[test]
fn restart_takes_no_event_out_of_turn() {
    assert_eq!(restart_cursor(RelaunchState::Idle, &RelaunchEvent::Stopped(true)), None);
    assert_eq!(restart_cursor(RelaunchState::Terminating, &RelaunchEvent::Start), None);
    assert_eq!(restart_cursor(RelaunchState::Waiting, &RelaunchEvent::Located(None)), None);
    assert_eq!(restart_cursor(RelaunchState::Locating, &RelaunchEvent::WaitElapsed), None);
    assert_eq!(restart_cursor(RelaunchState::Spawning, &RelaunchEvent::Located(None)), None);
}

#[test]
fn name_matching_agrees_with_lower_casing() {
    for name in ["cursor", "Cursor", "CURSOR.EXE", "cUrSoR.eXe", "cursor.exe ", "Code", "", "CURSOR\u{212a}", "ſcursor", "İcursor", "cursor.EXÉ"] {
        let lowered = name.to_lowercase();
        assert_eq!(is_editor_process(name), lowered == "cursor" || lowered == "cursor.exe", "{:?}", name);
    }
}
