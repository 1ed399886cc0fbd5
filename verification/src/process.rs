//! Finding, stopping and starting the editor's process.

use crate::error::ProcessError;
use vstd::prelude::*;
use vstd::string::*;

verus! {

/// The lower-case form of an ASCII capital; every other character is itself.
pub open spec fn lower(c: char) -> char {
    if 'A' <= c && c <= 'Z' {
        ((c as u8 + 32) as u8) as char
    } else {
        c
    }
}

/// A text with its ASCII capitals in lower case.
pub open spec fn folded(s: Seq<char>) -> Seq<char> {
    s.map_values(|c: char| lower(c))
}

fn to_lower(c: char) -> (r: char)
    ensures
        r == lower(c),
{
    if 'A' <= c && c <= 'Z' {
        ((c as u8) + 32) as char
    } else {
        c
    }
}

/// Whether `name`, capitals aside, is `target`.
fn folds_to(name: &str, target: &str) -> (r: bool)
    ensures
        r == (folded(name@) == target@),
{
    let n = name.unicode_len();
    if n != target.unicode_len() {
        return false;
    }
    let mut i: usize = 0;
    while i < n
        invariant
            i <= n,
            n == name@.len(),
            n == target@.len(),
            forall|j: int| 0 <= j < i ==> lower(name@[j]) == target@[j],
        decreases n - i,
    {
        if to_lower(name.get_char(i)) != target.get_char(i) {
            assert(folded(name@)[i as int] != target@[i as int]);
            return false;
        }
        i += 1;
    }
    assert(folded(name@) =~= target@);
    true
}

/// Whether a process of this name is the editor: capitals aside, the name
/// is `cursor` or `cursor.exe`.
pub open spec fn is_editor_name(name: Seq<char>) -> bool {
    folded(name) == "cursor"@ || folded(name) == "cursor.exe"@
}

/// Tells whether a process of this name is the editor.
pub fn is_editor_process(name: &str) -> (r: bool)
    ensures
        r == is_editor_name(name@),
{
    folds_to(name, "cursor") || folds_to(name, "cursor.exe")
}

/// A process as one enumeration saw it.
#[derive(Debug, Clone, PartialEq, Eq)]
pub struct ProcessHandle {
    pub pid: u32,
    pub name: String,
}

/// The identifiers of the editor's processes in a snapshot, in its order.
pub open spec fn editor_pids(snapshot: Seq<ProcessHandle>) -> Seq<u32> {
    snapshot.filter_map(
        |p: ProcessHandle|
            if is_editor_name(p.name@) {
                Some(p.pid)
            } else {
                None
            },
    )
}

/// Whether a snapshot holds a process with this identifier.
pub open spec fn is_live(snapshot: Seq<ProcessHandle>, pid: u32) -> bool {
    exists|i: int| 0 <= i < snapshot.len() && #[trigger] snapshot[i].pid == pid
}

/// Those of `targets` that a snapshot still holds, in their order.
pub open spec fn survivors(targets: Seq<u32>, snapshot: Seq<ProcessHandle>) -> Seq<u32> {
    targets.filter(|pid: u32| is_live(snapshot, pid))
}

/// Collects the identifiers of the editor's processes.
pub fn find_editor_processes(snapshot: &Vec<ProcessHandle>) -> (r: Vec<u32>)
    ensures
        r@ == editor_pids(snapshot@),
{
    let ghost pick = |p: ProcessHandle|
        if is_editor_name(p.name@) {
            Some(p.pid)
        } else {
            None
        };
    let mut found: Vec<u32> = Vec::new();
    let mut i: usize = 0;
    while i < snapshot.len()
        invariant
            i <= snapshot.len(),
            pick == (|p: ProcessHandle|
                if is_editor_name(p.name@) {
                    Some(p.pid)
                } else {
                    None
                }),
            found@ == snapshot@.take(i as int).filter_map(pick),
        decreases snapshot.len() - i,
    {
        proof {
            snapshot@.lemma_filter_map_take_succ(pick, i as int);
        }
        if is_editor_process(snapshot[i].name.as_str()) {
            found.push(snapshot[i].pid);
        }
        i += 1;
    }
    assert(snapshot@.take(snapshot.len() as int) =~= snapshot@);
    found
}

/// Whether a snapshot holds a process with this identifier.
fn holds(snapshot: &Vec<ProcessHandle>, pid: u32) -> (r: bool)
    ensures
        r == is_live(snapshot@, pid),
{
    let mut i: usize = 0;
    while i < snapshot.len()
        invariant
            i <= snapshot.len(),
            forall|j: int| 0 <= j < i ==> snapshot@[j].pid != pid,
        decreases snapshot.len() - i,
    {
        if snapshot[i].pid == pid {
            return true;
        }
        i += 1;
    }
    false
}

/// Collects those of `targets` that a fresh snapshot still holds.
pub fn still_running(targets: &Vec<u32>, snapshot: &Vec<ProcessHandle>) -> (r: Vec<u32>)
    ensures
        r@ == survivors(targets@, snapshot@),
{
    let ghost live = |pid: u32| is_live(snapshot@, pid);
    let mut left: Vec<u32> = Vec::new();
    let mut i: usize = 0;
    while i < targets.len()
        invariant
            i <= targets.len(),
            live == (|pid: u32| is_live(snapshot@, pid)),
            left@ == targets@.take(i as int).filter(live),
        decreases targets.len() - i,
    {
        proof {
            targets@.take(i as int).lemma_filter_push(targets@[i as int], live);
            assert(targets@.take(i as int).push(targets@[i as int]) =~= targets@.take(i + 1));
        }
        if holds(snapshot, targets[i]) {
            left.push(targets[i]);
        }
        i += 1;
    }
    assert(targets@.take(targets.len() as int) =~= targets@);
    left
}

/// Where the stopping of the editor stands.
#[derive(Debug, Clone, PartialEq, Eq)]
pub enum ExitState {
    /// Nothing was done yet; at most `max_wait` pauses may follow the kill.
    Idle { max_wait: u64 },
    /// The `targets` were killed; `polls_left` pauses may still be taken.
    Polling { targets: Vec<u32>, polls_left: u64 },
    /// The attempt is over; `stopped` tells whether every target is gone.
    Done { stopped: bool },
}

/// What to do before the next snapshot is taken, or how the attempt ended.
#[derive(Debug, Clone, PartialEq, Eq)]
pub enum ExitStep {
    /// Kill these processes by force, then look again at once.
    Kill(Vec<u32>),
    /// Pause for so many seconds, then look again.
    Sleep { seconds: u64 },
    /// Stop looking: `true` where none of the editor's processes is left,
    /// `false` where some outlived the wait.
    Finish(bool),
}

/// An `ExitState`, as mathematics.
pub ghost enum ExitStateView {
    Idle { max_wait: u64 },
    Polling { targets: Seq<u32>, polls_left: u64 },
    Done { stopped: bool },
}

/// An `ExitStep`, as mathematics.
pub ghost enum ExitStepView {
    Kill(Seq<u32>),
    Sleep { seconds: u64 },
    Finish(bool),
}

impl View for ExitState {
    type V = ExitStateView;

    open spec fn view(&self) -> ExitStateView {
        match *self {
            ExitState::Idle { max_wait } => ExitStateView::Idle { max_wait },
            ExitState::Polling { targets, polls_left } => ExitStateView::Polling { targets: targets@, polls_left },
            ExitState::Done { stopped } => ExitStateView::Done { stopped },
        }
    }
}

impl View for ExitStep {
    type V = ExitStepView;

    open spec fn view(&self) -> ExitStepView {
        match *self {
            ExitStep::Kill(targets) => ExitStepView::Kill(targets@),
            ExitStep::Sleep { seconds } => ExitStepView::Sleep { seconds },
            ExitStep::Finish(stopped) => ExitStepView::Finish(stopped),
        }
    }
}

/// The rule of stopping the editor: the state and step that follow a fresh
/// snapshot of the processes.
///
/// The first snapshot names the targets: with none to stop the attempt ends
/// well at once, otherwise all of them are killed. Each later snapshot is
/// held against the targets: with none of them left the attempt ends well;
/// with some left it pauses for a second, as long as pauses remain, and ends
/// badly after the last.
pub open spec fn exit_rule(state: ExitStateView, snapshot: Seq<ProcessHandle>) -> (ExitStateView, ExitStepView) {
    match state {
        ExitStateView::Idle { max_wait } => {
            let targets = editor_pids(snapshot);
            if targets.len() == 0 {
                (ExitStateView::Done { stopped: true }, ExitStepView::Finish(true))
            } else {
                (ExitStateView::Polling { targets, polls_left: max_wait }, ExitStepView::Kill(targets))
            }
        },
        ExitStateView::Polling { targets, polls_left } => {
            if survivors(targets, snapshot).len() == 0 {
                (ExitStateView::Done { stopped: true }, ExitStepView::Finish(true))
            } else if polls_left == 0 {
                (ExitStateView::Done { stopped: false }, ExitStepView::Finish(false))
            } else {
                (
                    ExitStateView::Polling { targets, polls_left: (polls_left - 1) as u64 },
                    ExitStepView::Sleep { seconds: 1 },
                )
            }
        },
        ExitStateView::Done { stopped } => (state, ExitStepView::Finish(stopped)),
    }
}

/// One step of stopping the editor; see `exit_rule`.
pub fn exit_cursor(state: ExitState, snapshot: &Vec<ProcessHandle>) -> (r: (ExitState, ExitStep))
    ensures
        (r.0@, r.1@) == exit_rule(state@, snapshot@),
{
    match state {
        ExitState::Idle { max_wait } => {
            let targets = find_editor_processes(snapshot);
            if targets.len() == 0 {
                (ExitState::Done { stopped: true }, ExitStep::Finish(true))
            } else {
                let to_kill = targets.clone();
                (ExitState::Polling { targets, polls_left: max_wait }, ExitStep::Kill(to_kill))
            }
        },
        ExitState::Polling { targets, polls_left } => {
            let left = still_running(&targets, snapshot);
            if left.len() == 0 {
                (ExitState::Done { stopped: true }, ExitStep::Finish(true))
            } else if polls_left == 0 {
                (ExitState::Done { stopped: false }, ExitStep::Finish(false))
            } else {
                (ExitState::Polling { targets, polls_left: polls_left - 1 }, ExitStep::Sleep { seconds: 1 })
            }
        },
        ExitState::Done { stopped } => (ExitState::Done { stopped }, ExitStep::Finish(stopped)),
    }
}

/// The number of pauses that stopping the editor may still take.
pub open spec fn pauses_left(state: ExitStateView) -> nat {
    match state {
        ExitStateView::Idle { max_wait } => max_wait as nat,
        ExitStateView::Polling { polls_left, .. } => polls_left as nat,
        ExitStateView::Done { .. } => 0,
    }
}

/// The pauses taken when `state` is fed the snapshots of `run` one after the
/// other, up to the first that ends the attempt.
pub open spec fn pauses_taken(state: ExitStateView, run: Seq<Seq<ProcessHandle>>) -> nat
    decreases run.len(),
{
    if run.len() == 0 {
        0
    } else {
        let (next, step) = exit_rule(state, run.first());
        match step {
            ExitStepView::Finish(_) => 0,
            ExitStepView::Sleep { .. } => 1 + pauses_taken(next, run.drop_first()),
            ExitStepView::Kill(_) => pauses_taken(next, run.drop_first()),
        }
    }
}

/// Stopping the editor waits no longer than it was allowed to: whatever the
/// snapshots show, the pauses taken are at most those that the state has left.
pub proof fn lemma_wait_is_bounded(state: ExitStateView, run: Seq<Seq<ProcessHandle>>)
    ensures
        pauses_taken(state, run) <= pauses_left(state),
    decreases run.len(),
{
    if run.len() > 0 {
        let (next, step) = exit_rule(state, run.first());
        lemma_wait_is_bounded(next, run.drop_first());
    }
}

/// The attempt ends well only on a snapshot that holds none of the targets,
/// and badly only on one that holds some of them when no pause is left.
pub proof fn lemma_finish_is_justified(state: ExitStateView, snapshot: Seq<ProcessHandle>)
    ensures
        state matches ExitStateView::Polling { targets, polls_left } ==> {
            let step = exit_rule(state, snapshot).1;
            &&& step == ExitStepView::Finish(true) <==> forall|i: int|
                0 <= i < targets.len() ==> !is_live(snapshot, #[trigger] targets[i])
            &&& step == ExitStepView::Finish(false) <==> polls_left == 0 && exists|i: int|
                0 <= i < targets.len() && is_live(snapshot, #[trigger] targets[i])
        },
{
    if let ExitStateView::Polling { targets, polls_left } = state {
        let live = |pid: u32| is_live(snapshot, pid);
        let left = targets.filter(live);
        broadcast use vstd::seq_lib::group_filter_ensures;

        if left.len() == 0 {
            assert forall|i: int| 0 <= i < targets.len() implies !is_live(snapshot, #[trigger] targets[i]) by {
                if live(targets[i]) {
                    assert(left.contains(targets[i]));
                }
            }
        } else {
            assert(left.contains(left[0]));
            targets.lemma_filter_contains_rev(live, left[0]);
        }
    }
}

/// Whether the probe found something at the place with this index. A place
/// that was not probed counts as empty.
pub open spec fn is_present(present: Seq<bool>, i: int) -> bool {
    0 <= i < present.len() && present[i]
}

/// Whether `i` is the first of `count` places at which something was found.
pub open spec fn is_first_present(present: Seq<bool>, count: nat, i: int) -> bool {
    &&& 0 <= i < count
    &&& is_present(present, i)
    &&& forall|j: int| 0 <= j < i ==> !is_present(present, j)
}

/// Picks the editor's executable: the first candidate at which the probe
/// found something. Fails with `NotFound` where it found nothing at any.
pub fn get_cursor_path(candidates: &Vec<String>, present: &Vec<bool>) -> (r: Result<String, ProcessError>)
    ensures
        match r {
            Ok(place) => exists|i: int|
                is_first_present(present@, candidates@.len(), i) && place@ == (#[trigger] candidates@[i])@,
            Err(e) => e is NotFound && forall|i: int| 0 <= i < candidates@.len() ==> !is_present(present@, i),
        },
{
    let mut i: usize = 0;
    while i < candidates.len()
        invariant
            i <= candidates.len(),
            forall|j: int| 0 <= j < i ==> !is_present(present@, j),
        decreases candidates.len() - i,
    {
        if i < present.len() && present[i] {
            assert(is_first_present(present@, candidates@.len(), i as int));
            return Ok(candidates[i].clone());
        }
        i += 1;
    }
    Err(ProcessError::NotFound)
}

/// Where the restart of the editor stands.
#[derive(Debug, Clone, Copy, PartialEq, Eq)]
pub enum RelaunchState {
    /// Nothing was asked for yet.
    Idle,
    /// The running editor is being stopped.
    Terminating,
    /// The running editor outlived the wait. This ends the restart.
    TerminationFailed,
    /// The editor is stopped, and the system is given time to clear up.
    Waiting,
    /// The executable is being looked for.
    Locating,
    /// No executable was found. This ends the restart.
    LocateFailed,
    /// The executable is being started.
    Spawning,
    /// The executable did not start. This ends the restart.
    SpawnFailed,
    /// The editor was started. This ends the restart.
    Done,
}

/// How a step of the restart has ended.
#[derive(Debug, PartialEq, Eq)]
pub enum RelaunchEvent {
    /// The restart is asked for.
    Start,
    /// The stopping ended; `true` where no process of the editor is left.
    Stopped(bool),
    /// The pause is over.
    WaitElapsed,
    /// The search ended, with the executable where there is one.
    Located(Option<String>),
    /// The start ended; the text tells why it failed.
    Spawned(Result<(), String>),
}

/// What the restart asks for next.
#[derive(Debug, PartialEq, Eq)]
pub enum RelaunchStep {
    /// Stop the running editor, pausing at most so many times.
    Terminate { max_wait_seconds: u64 },
    /// Pause for so many seconds.
    Wait { seconds: u64 },
    /// Look for the executable.
    Locate,
    /// Start the executable at this place, detached.
    Spawn(String),
    /// The restart is over, with this result.
    Finish(Result<(), ProcessError>),
}

/// A `RelaunchStep`, as mathematics. A failure to start keeps its kind only:
/// the reason is for the operator, and nothing depends on it.
pub ghost enum RelaunchStepView {
    Terminate { max_wait_seconds: u64 },
    Wait { seconds: u64 },
    Locate,
    Spawn(Seq<char>),
    Succeed,
    FailNotFound,
    FailTerminationIncomplete,
    FailSpawn(Seq<char>),
}

impl View for RelaunchStep {
    type V = RelaunchStepView;

    open spec fn view(&self) -> RelaunchStepView {
        match *self {
            RelaunchStep::Terminate { max_wait_seconds } => RelaunchStepView::Terminate { max_wait_seconds },
            RelaunchStep::Wait { seconds } => RelaunchStepView::Wait { seconds },
            RelaunchStep::Locate => RelaunchStepView::Locate,
            RelaunchStep::Spawn(place) => RelaunchStepView::Spawn(place@),
            RelaunchStep::Finish(Ok(_)) => RelaunchStepView::Succeed,
            RelaunchStep::Finish(Err(ProcessError::NotFound)) => RelaunchStepView::FailNotFound,
            RelaunchStep::Finish(Err(ProcessError::TerminationIncomplete)) => RelaunchStepView::FailTerminationIncomplete,
            RelaunchStep::Finish(Err(ProcessError::SpawnFailed(reason))) => RelaunchStepView::FailSpawn(reason@),
        }
    }
}

/// The rule of the restart: the state and step that follow `event` in
/// `state`, or `None` where `state` does not wait for `event`.
///
/// The editor is stopped first, with one pause at most. Where a process
/// outlives that, nothing is started. Otherwise one second passes, the
/// executable is looked for and started. A state that ends the restart waits
/// for nothing, and no step is tried twice.
pub open spec fn relaunch_rule(state: RelaunchState, event: RelaunchEvent) -> Option<(RelaunchState, RelaunchStepView)> {
    match (state, event) {
        (RelaunchState::Idle, RelaunchEvent::Start) => Some(
            (RelaunchState::Terminating, RelaunchStepView::Terminate { max_wait_seconds: 1 }),
        ),
        (RelaunchState::Terminating, RelaunchEvent::Stopped(stopped)) => if stopped {
            Some((RelaunchState::Waiting, RelaunchStepView::Wait { seconds: 1 }))
        } else {
            Some((RelaunchState::TerminationFailed, RelaunchStepView::FailTerminationIncomplete))
        },
        (RelaunchState::Waiting, RelaunchEvent::WaitElapsed) => Some(
            (RelaunchState::Locating, RelaunchStepView::Locate),
        ),
        (RelaunchState::Locating, RelaunchEvent::Located(Some(place))) => Some(
            (RelaunchState::Spawning, RelaunchStepView::Spawn(place@)),
        ),
        (RelaunchState::Locating, RelaunchEvent::Located(None)) => Some(
            (RelaunchState::LocateFailed, RelaunchStepView::FailNotFound),
        ),
        (RelaunchState::Spawning, RelaunchEvent::Spawned(Ok(_))) => Some(
            (RelaunchState::Done, RelaunchStepView::Succeed),
        ),
        (RelaunchState::Spawning, RelaunchEvent::Spawned(Err(reason))) => Some(
            (RelaunchState::SpawnFailed, RelaunchStepView::FailSpawn(reason@)),
        ),
        _ => None,
    }
}

/// One step of the restart; see `relaunch_rule`.
pub fn restart_cursor(state: RelaunchState, event: &RelaunchEvent) -> (r: Option<(RelaunchState, RelaunchStep)>)
    ensures
        match r {
            Some((next, step)) => relaunch_rule(state, *event) == Some((next, step@)),
            None => relaunch_rule(state, *event) is None,
        },
{
    match (state, event) {
        (RelaunchState::Idle, RelaunchEvent::Start) => Some(
            (RelaunchState::Terminating, RelaunchStep::Terminate { max_wait_seconds: 1 }),
        ),
        (RelaunchState::Terminating, RelaunchEvent::Stopped(stopped)) => {
            if *stopped {
                Some((RelaunchState::Waiting, RelaunchStep::Wait { seconds: 1 }))
            } else {
                Some(
                    (
                        RelaunchState::TerminationFailed,
                        RelaunchStep::Finish(Err(ProcessError::TerminationIncomplete)),
                    ),
                )
            }
        },
        (RelaunchState::Waiting, RelaunchEvent::WaitElapsed) => Some(
            (RelaunchState::Locating, RelaunchStep::Locate),
        ),
        (RelaunchState::Locating, RelaunchEvent::Located(Some(place))) => Some(
            (RelaunchState::Spawning, RelaunchStep::Spawn(place.clone())),
        ),
        (RelaunchState::Locating, RelaunchEvent::Located(None)) => Some(
            (RelaunchState::LocateFailed, RelaunchStep::Finish(Err(ProcessError::NotFound))),
        ),
        (RelaunchState::Spawning, RelaunchEvent::Spawned(Ok(_))) => Some(
            (RelaunchState::Done, RelaunchStep::Finish(Ok(()))),
        ),
        (RelaunchState::Spawning, RelaunchEvent::Spawned(Err(reason))) => Some(
            (RelaunchState::SpawnFailed, RelaunchStep::Finish(Err(ProcessError::SpawnFailed(reason.clone())))),
        ),
        _ => None,
    }
}

/// The restart keeps its order: a state is entered from the state before it
/// and from no other. So the executable is started only after it was looked
/// for, that only after the pause, and the pause only after the editor was
/// found stopped.
pub proof fn lemma_relaunch_keeps_order(state: RelaunchState, event: RelaunchEvent)
    ensures
        relaunch_rule(state, event) matches Some((next, step)) ==> {
            &&& next is Terminating ==> state is Idle
            &&& next is Waiting ==> state is Terminating && event == RelaunchEvent::Stopped(true)
            &&& next is Locating ==> state is Waiting
            &&& next is Spawning ==> state is Locating
            &&& next is Done ==> state is Spawning
            &&& !(next is Idle)
        },
{
}

/// Whether a state ends the restart.
pub open spec fn is_terminal(state: RelaunchState) -> bool {
    state is TerminationFailed || state is LocateFailed || state is SpawnFailed || state is Done
}

/// The restart ends exactly where it reports: a step is a result if, and
/// only if, the state it leads to is one that ends the restart; and from
/// such a state nothing follows.
pub proof fn lemma_relaunch_ends_once(state: RelaunchState, event: RelaunchEvent)
    ensures
        is_terminal(state) ==> relaunch_rule(state, event) is None,
        relaunch_rule(state, event) matches Some((next, step)) ==> (is_terminal(next) <==> (step is Succeed
            || step is FailNotFound || step is FailTerminationIncomplete || step is FailSpawn)),
        relaunch_rule(state, event) matches Some((next, step)) ==> (step is Spawn ==> state is Locating),
        relaunch_rule(state, event) matches Some((next, step)) ==> (step is Succeed <==> next is Done),
{
}

} // verus!
