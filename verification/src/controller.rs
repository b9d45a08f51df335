//! The automation controller's decision logic.
//!
//! The controller drives the client through each requested replay: open the
//! replay list, descend to the entry, resolve the operator's side, then
//! record each of that side's six players, polling once per second for
//! match end. Everything here is pure decision logic: each step computes
//! the exact ordered action sequence to perform, and the surrounding
//! application executes the actions (key sends, clicks, waits, capture
//! calls) and feeds observations back. Cancellation is a token passed into
//! every step that observes it, never global state.

use vstd::prelude::*;
use crate::input::{Key, ctrl};
use crate::side::{Side, TEAM_SIZE};
use crate::text::{str_eq, starts_with_str};
use crate::layout::{REPLAYS_TAB_X, REPLAYS_TAB_Y, DISMISS_CONTROLS_X, DISMISS_CONTROLS_Y};

verus! {

/// One instruction to the surrounding application.
#[derive(Debug, PartialEq, Eq)]
pub enum Action {
    /// Synthesize this key or chord into the game window.
    Send(Key),
    /// Click this screen coordinate.
    Click(u32, u32),
    /// Wait this many milliseconds for the UI to settle.
    SleepMs(u32),
    /// Block until the game window has input focus.
    AwaitFocus,
    /// Ask the capture service to start recording.
    StartRecording,
    /// Ask the capture service to stop recording.
    StopRecording,
    /// Mark the freshly produced capture artifacts as finished.
    MarkDone,
}

/// Short settle delay after synthesizing input.
pub const SMALL_SLEEP_MS: u32 = 200;

/// The per-second poll interval of the match-end loop.
pub const MED_SLEEP_MS: u32 = 1000;

/// Long settle delay around UI transitions.
pub const BIG_SLEEP_MS: u32 = 2000;

/// Fixed delay substituting for an unobservable replay-load signal.
pub const LOAD_SLEEP_MS: u32 = 10000;

/// The navigation that opens the replay list: up to the menu entry,
/// confirm, and click over to the replays tab.
pub open spec fn spec_open_replays_menu() -> Seq<Action> {
    seq![
        Action::AwaitFocus,
        Action::SleepMs(SMALL_SLEEP_MS),
        Action::Send(Key::Up),
        Action::Send(Key::Up),
        Action::Send(Key::Up),
        Action::Send(Key::Up),
        Action::Send(Key::Space),
        Action::SleepMs(BIG_SLEEP_MS),
        Action::Click(REPLAYS_TAB_X, REPLAYS_TAB_Y),
        Action::SleepMs(BIG_SLEEP_MS),
    ]
}

/// The navigation that opens the replay list.
pub fn open_replays_menu_script() -> (r: Vec<Action>)
    ensures
        r@ == spec_open_replays_menu(),
{
    let r = vec![
        Action::AwaitFocus,
        Action::SleepMs(SMALL_SLEEP_MS),
        Action::Send(Key::Up),
        Action::Send(Key::Up),
        Action::Send(Key::Up),
        Action::Send(Key::Up),
        Action::Send(Key::Space),
        Action::SleepMs(BIG_SLEEP_MS),
        Action::Click(REPLAYS_TAB_X, REPLAYS_TAB_Y),
        Action::SleepMs(BIG_SLEEP_MS),
    ];
    proof {
        assert(r@ =~= spec_open_replays_menu());
    }
    r
}

/// Descending `index` rows and confirming opens the chosen replay entry.
pub open spec fn spec_open_replay_entry(index: u8) -> Seq<Action> {
    Seq::new(index as nat, |i: int| Action::Send(Key::Down))
        + seq![Action::Send(Key::Tab), Action::Send(Key::Space)]
}

/// The key sequence that opens the replay at the given row: one "down" per
/// row, then confirm.
pub fn open_replay_entry_script(index: u8) -> (r: Vec<Action>)
    ensures
        r@ == spec_open_replay_entry(index),
{
    let mut r: Vec<Action> = Vec::new();
    let mut i: u8 = 0;
    while i < index
        invariant
            i <= index,
            r@ =~= Seq::new(i as nat, |k: int| Action::Send(Key::Down)),
        decreases index - i,
    {
        r.push(Action::Send(Key::Down));
        proof {
            assert(r@ =~= Seq::new(i as nat + 1, |k: int| Action::Send(Key::Down)));
        }
        i = i + 1;
    }
    r.push(Action::Send(Key::Tab));
    r.push(Action::Send(Key::Space));
    proof {
        assert(r@ =~= spec_open_replay_entry(index));
    }
    r
}

/// The fixed wait that substitutes for a replay-load signal.
pub open spec fn spec_load_settle() -> Seq<Action> {
    seq![Action::SleepMs(LOAD_SLEEP_MS)]
}

/// The fixed wait that substitutes for a replay-load signal.
pub fn load_settle_script() -> (r: Vec<Action>)
    ensures
        r@ == spec_load_settle(),
{
    let r = vec![Action::SleepMs(LOAD_SLEEP_MS)];
    proof {
        assert(r@ =~= spec_load_settle());
    }
    r
}

/// The pause chord.
pub open spec fn spec_pause() -> Seq<Action> {
    seq![Action::Send(Key::Ctrl(Box::new(Key::P)))]
}

/// Pauses playback.
pub fn pause_script() -> (r: Vec<Action>)
    ensures
        r@ == spec_pause(),
{
    let r = vec![Action::Send(ctrl(Key::P))];
    proof {
        assert(r@ =~= spec_pause());
    }
    r
}

/// Seeking forward three times puts the replay far enough in for every
/// player badge to be on screen before the side is probed.
pub open spec fn spec_seek_ahead() -> Seq<Action> {
    seq![
        Action::SleepMs(BIG_SLEEP_MS),
        Action::Send(Key::Ctrl(Box::new(Key::Right))),
        Action::SleepMs(BIG_SLEEP_MS),
        Action::Send(Key::Ctrl(Box::new(Key::Right))),
        Action::SleepMs(BIG_SLEEP_MS),
        Action::Send(Key::Ctrl(Box::new(Key::Right))),
        Action::SleepMs(BIG_SLEEP_MS),
    ]
}

/// Skips the replay forward before side resolution.
pub fn seek_ahead_script() -> (r: Vec<Action>)
    ensures
        r@ == spec_seek_ahead(),
{
    let r = vec![
        Action::SleepMs(BIG_SLEEP_MS),
        Action::Send(ctrl(Key::Right)),
        Action::SleepMs(BIG_SLEEP_MS),
        Action::Send(ctrl(Key::Right)),
        Action::SleepMs(BIG_SLEEP_MS),
        Action::Send(ctrl(Key::Right)),
        Action::SleepMs(BIG_SLEEP_MS),
    ];
    proof {
        assert(r@ =~= spec_seek_ahead());
    }
    r
}

/// Focusing one player and letting the UI settle, before a screenshot is
/// scored against the operator's badge.
pub open spec fn spec_probe_player(key: Key) -> Seq<Action> {
    seq![Action::Send(key), Action::SleepMs(BIG_SLEEP_MS)]
}

/// Focuses one player before a probe screenshot.
pub fn probe_player_script(key: Key) -> (r: Vec<Action>)
    ensures
        r@ == spec_probe_player(key),
{
    let ghost k = key;
    let r = vec![Action::Send(key), Action::SleepMs(BIG_SLEEP_MS)];
    proof {
        assert(r@ =~= spec_probe_player(k));
    }
    r
}

/// Focusing the player to record and seeking back to the start of the
/// match, with time to re-load.
pub open spec fn spec_focus_player(player: Key) -> Seq<Action> {
    seq![
        Action::AwaitFocus,
        Action::Send(player),
        Action::Send(Key::Ctrl(Box::new(Key::Left))),
        Action::SleepMs(BIG_SLEEP_MS),
        Action::SleepMs(BIG_SLEEP_MS),
    ]
}

/// Focuses the player to record and seeks to the start.
pub fn focus_player_script(player: Key) -> (r: Vec<Action>)
    ensures
        r@ == spec_focus_player(player),
{
    let ghost p = player;
    let r = vec![
        Action::AwaitFocus,
        Action::Send(player),
        Action::Send(ctrl(Key::Left)),
        Action::SleepMs(BIG_SLEEP_MS),
        Action::SleepMs(BIG_SLEEP_MS),
    ];
    proof {
        assert(r@ =~= spec_focus_player(p));
    }
    r
}

/// Dismissing then re-showing the playback controls, so the pause state can
/// be read from a screenshot.
pub open spec fn spec_show_controls() -> Seq<Action> {
    seq![
        Action::Click(DISMISS_CONTROLS_X, DISMISS_CONTROLS_Y),
        Action::SleepMs(BIG_SLEEP_MS),
        Action::Send(Key::N),
        Action::SleepMs(BIG_SLEEP_MS),
    ]
}

/// Makes the playback controls visible for the pause probe.
pub fn show_controls_script() -> (r: Vec<Action>)
    ensures
        r@ == spec_show_controls(),
{
    let r = vec![
        Action::Click(DISMISS_CONTROLS_X, DISMISS_CONTROLS_Y),
        Action::SleepMs(BIG_SLEEP_MS),
        Action::Send(Key::N),
        Action::SleepMs(BIG_SLEEP_MS),
    ];
    proof {
        assert(r@ =~= spec_show_controls());
    }
    r
}

/// Starting the recording: correct the pause state if the pause probe did
/// not confirm it, hide the controls, chase the player, start capture and
/// unpause.
pub open spec fn spec_start_recording(player: Key, definitely_paused: bool) -> Seq<Action> {
    (if definitely_paused {
        Seq::<Action>::empty()
    } else {
        seq![
            Action::Send(Key::Ctrl(Box::new(Key::P))),
            Action::Send(Key::Ctrl(Box::new(Key::Left))),
        ]
    }) + seq![
        Action::Send(Key::N),
        Action::Send(player),
        Action::StartRecording,
        Action::SleepMs(BIG_SLEEP_MS),
        Action::Send(Key::Ctrl(Box::new(Key::P))),
    ]
}

/// The actions that start recording the focused player, fixing an
/// unconfirmed pause state first.
pub fn start_recording_script(player: Key, definitely_paused: bool) -> (r: Vec<Action>)
    ensures
        r@ == spec_start_recording(player, definitely_paused),
{
    let ghost p = player;
    let mut r: Vec<Action> = Vec::new();
    if !definitely_paused {
        r.push(Action::Send(ctrl(Key::P)));
        r.push(Action::Send(ctrl(Key::Left)));
    }
    r.push(Action::Send(Key::N));
    r.push(Action::Send(player));
    r.push(Action::StartRecording);
    r.push(Action::SleepMs(BIG_SLEEP_MS));
    r.push(Action::Send(ctrl(Key::P)));
    proof {
        assert(r@ =~= spec_start_recording(p, definitely_paused));
    }
    r
}

/// One decision of the per-second match-end poll.
#[derive(Debug, PartialEq, Eq)]
pub struct PollStep {
    /// Recording of this player is over; move on.
    pub exit: bool,
    /// The actions to perform before the next observation.
    pub actions: Vec<Action>,
}

/// The actions that wind a finished recording down: stop capture, seek back
/// to the start, re-pause, and mark the artifacts done.
pub open spec fn spec_finish_recording() -> Seq<Action> {
    seq![
        Action::SleepMs(BIG_SLEEP_MS),
        Action::StopRecording,
        Action::SleepMs(BIG_SLEEP_MS),
        Action::Send(Key::Ctrl(Box::new(Key::Left))),
        Action::SleepMs(BIG_SLEEP_MS),
        Action::Send(Key::Ctrl(Box::new(Key::P))),
        Action::MarkDone,
    ]
}

/// One step of the per-second poll while a player records. The step exits
/// exactly when the match has ended or cancellation was observed, and every
/// exit still stops the capture: a cancelled recording is stopped but left
/// unmarked, so a later run will not treat it as finished.
pub fn poll_step(player: &Key, cancelled: bool, game_over: bool) -> (r: PollStep)
    ensures
        r.exit == (cancelled || game_over),
        game_over ==> r.actions@ == spec_finish_recording(),
        !game_over && cancelled ==> r.actions@ == seq![Action::StopRecording],
        !game_over && !cancelled ==> r.actions@ == seq![
            Action::Send(*player),
            Action::SleepMs(MED_SLEEP_MS),
        ],
        r.exit ==> r.actions@.contains(Action::StopRecording),
        !game_over ==> !r.actions@.contains(Action::MarkDone),
    decreases 0int,
{
    if game_over {
        let actions = vec![
            Action::SleepMs(BIG_SLEEP_MS),
            Action::StopRecording,
            Action::SleepMs(BIG_SLEEP_MS),
            Action::Send(ctrl(Key::Left)),
            Action::SleepMs(BIG_SLEEP_MS),
            Action::Send(ctrl(Key::P)),
            Action::MarkDone,
        ];
        proof {
            assert(actions@ =~= spec_finish_recording());
            assert(actions@[1] == Action::StopRecording);
        }
        PollStep { exit: true, actions }
    } else if cancelled {
        let actions = vec![Action::StopRecording];
        proof {
            assert(actions@[0] == Action::StopRecording);
            assert(forall|i: int| 0 <= i < actions@.len()
                ==> actions@[i] != Action::MarkDone);
        }
        PollStep { exit: true, actions }
    } else {
        let actions = vec![Action::Send(player.duplicate()), Action::SleepMs(MED_SLEEP_MS)];
        proof {
            assert(actions@ =~= seq![Action::Send(*player), Action::SleepMs(MED_SLEEP_MS)]);
            assert(forall|i: int| 0 <= i < actions@.len()
                ==> actions@[i] != Action::MarkDone);
        }
        PollStep { exit: false, actions }
    }
}

/// Backing out of the replay to the menu, dismissing any shown controls
/// first.
pub open spec fn spec_close_replay() -> Seq<Action> {
    seq![
        Action::SleepMs(BIG_SLEEP_MS),
        Action::Click(DISMISS_CONTROLS_X, DISMISS_CONTROLS_Y),
        Action::Send(Key::Escape),
        Action::Send(Key::Up),
        Action::Send(Key::Up),
        Action::Send(Key::Space),
        Action::SleepMs(BIG_SLEEP_MS),
    ]
}

/// Backs out of the replay to the menu.
pub fn close_replay_script() -> (r: Vec<Action>)
    ensures
        r@ == spec_close_replay(),
{
    let r = vec![
        Action::SleepMs(BIG_SLEEP_MS),
        Action::Click(DISMISS_CONTROLS_X, DISMISS_CONTROLS_Y),
        Action::Send(Key::Escape),
        Action::Send(Key::Up),
        Action::Send(Key::Up),
        Action::Send(Key::Space),
        Action::SleepMs(BIG_SLEEP_MS),
    ];
    proof {
        assert(r@ =~= spec_close_replay());
    }
    r
}

/// The crash-safe bookkeeping of a multi-replay run: which replay indices
/// are still to process. Replays are recorded oldest first, which is the
/// highest requested row first.
pub struct Job {
    remaining: Vec<u8>,
}

impl Job {
    /// The replay rows still to process, in the order they were requested.
    pub closed spec fn remaining(&self) -> Seq<u8> {
        self.remaining@
    }

    /// Starts a job over the given ascending row numbers.
    pub fn new(indices: Vec<u8>) -> (r: Job)
        ensures
            r.remaining() == indices@,
    {
        Job { remaining: indices }
    }

    /// How many replays are still to process.
    pub fn remaining_count(&self) -> (r: usize)
        ensures
            r == self.remaining().len(),
    {
        self.remaining.len()
    }

    /// The next replay row to record: the last requested row (the oldest
    /// replay), or `None` when the job is finished.
    pub fn next_replay(&mut self) -> (r: Option<u8>)
        ensures
            old(self).remaining().len() == 0 ==> r is None
                && final(self).remaining() == old(self).remaining(),
            old(self).remaining().len() > 0 ==> r == Some(old(self).remaining().last())
                && final(self).remaining() == old(self).remaining().drop_last(),
    {
        self.remaining.pop()
    }
}

/// The renames that mark freshly recorded artifacts as done: every file
/// not yet carrying the done marker is prefixed with it.
pub open spec fn spec_rename_plan(files: Seq<Seq<char>>) -> Seq<(Seq<char>, Seq<char>)>
    decreases files.len(),
{
    if files.len() == 0 {
        Seq::empty()
    } else {
        spec_rename_plan(files.drop_last())
            + if has_done_prefix(files.last()) {
                Seq::empty()
            } else {
                seq![(files.last(), "done_"@ + files.last())]
            }
    }
}

/// The file name carries the done marker.
pub open spec fn has_done_prefix(name: Seq<char>) -> bool {
    name.len() >= "done_"@.len() && name.subrange(0, "done_"@.len() as int) == "done_"@
}

/// Computes the renames that mark a recording's artifacts as done, as
/// `(from, to)` pairs. Files already marked are left alone, so resuming a
/// crashed run never re-marks or re-records finished artifacts.
pub fn rename_plan(files: &Vec<String>) -> (r: Vec<(String, String)>)
    ensures
        r@.map_values(|p: (String, String)| (p.0@, p.1@))
            == spec_rename_plan(files@.map_values(|f: String| f@)),
{
    let mut r: Vec<(String, String)> = Vec::new();
    let mut i: usize = 0;
    while i < files.len()
        invariant
            i <= files@.len(),
            r@.map_values(|p: (String, String)| (p.0@, p.1@))
                == spec_rename_plan(files@.subrange(0, i as int).map_values(|f: String| f@)),
        decreases files@.len() - i,
    {
        let ghost prefix = files@.subrange(0, i as int).map_values(|f: String| f@);
        let ghost full = files@.subrange(0, i as int + 1).map_values(|f: String| f@);
        proof {
            assert(full.drop_last() =~= prefix);
            assert(full.last() == files@[i as int]@);
        }
        let f = &files[i];
        if !starts_with_str(f.as_str(), "done_") {
            let mut marked = String::from_str("done_");
            marked.append(f.as_str());
            r.push((f.clone(), marked));
            proof {
                assert(r@.map_values(|p: (String, String)| (p.0@, p.1@))
                    =~= spec_rename_plan(full));
            }
        } else {
            proof {
                assert(r@.map_values(|p: (String, String)| (p.0@, p.1@))
                    =~= spec_rename_plan(full));
            }
        }
        i = i + 1;
    }
    proof {
        assert(files@.subrange(0, files@.len() as int) =~= files@);
    }
    r
}

/// The camera files of a recording directory: everything except the two
/// derived outputs.
pub open spec fn spec_camera_files(files: Seq<Seq<char>>) -> Seq<Seq<char>>
    decreases files.len(),
{
    if files.len() == 0 {
        Seq::empty()
    } else {
        spec_camera_files(files.drop_last())
            + if files.last() == "final.mkv"@ || files.last() == "mosaic.mkv"@ {
                Seq::empty()
            } else {
                seq![files.last()]
            }
    }
}

/// Selects the per-player camera files to feed the mosaic, leaving out the
/// derived outputs.
pub fn camera_files(files: &Vec<String>) -> (r: Vec<String>)
    ensures
        r@.map_values(|f: String| f@)
            == spec_camera_files(files@.map_values(|f: String| f@)),
{
    let mut r: Vec<String> = Vec::new();
    let mut i: usize = 0;
    while i < files.len()
        invariant
            i <= files@.len(),
            r@.map_values(|f: String| f@)
                == spec_camera_files(files@.subrange(0, i as int).map_values(|f: String| f@)),
        decreases files@.len() - i,
    {
        let ghost prefix = files@.subrange(0, i as int).map_values(|f: String| f@);
        let ghost full = files@.subrange(0, i as int + 1).map_values(|f: String| f@);
        proof {
            assert(full.drop_last() =~= prefix);
            assert(full.last() == files@[i as int]@);
        }
        let f = &files[i];
        if !str_eq(f.as_str(), "final.mkv") && !str_eq(f.as_str(), "mosaic.mkv") {
            r.push(f.clone());
        }
        proof {
            assert(r@.map_values(|f2: String| f2@) =~= spec_camera_files(full));
        }
        i = i + 1;
    }
    proof {
        assert(files@.subrange(0, files@.len() as int) =~= files@);
    }
    r
}

/// The name under which a finished mosaic is parked beside the recording
/// directory, derived from the directory's own name.
pub fn mosaic_done_name(dir_name: &str) -> (r: String)
    ensures
        r@ == "done_mosaic_"@ + dir_name@ + ".mkv"@,
{
    let mut r = String::from_str("done_mosaic_");
    r.append(dir_name);
    r.append(".mkv");
    r
}


/// Where the controller stands inside one replay.
#[derive(Clone, Copy, Debug, PartialEq, Eq, Structural)]
pub enum Phase {
    /// Opening the replay list from the main menu.
    OpeningMenu,
    /// Descending to the requested row and confirming.
    OpeningEntry,
    /// Waiting out the fixed load delay.
    Settling,
    /// Pausing freshly loaded playback.
    PausingPlayback,
    /// Seeking ahead so every badge is on screen for the probes.
    SeekingAhead,
    /// Focusing the next probe key of the given side.
    Probing {
        /// The side being probed.
        side: Side,
        /// The slot about to be probed.
        slot: u8,
    },
    /// All probes taken; waiting for the resolved side.
    ResolvingSide,
    /// Focusing the player of the given slot for recording.
    Focusing {
        /// The resolved side.
        side: Side,
        /// The slot being recorded.
        slot: u8,
    },
    /// Showing the controls to read the pause state.
    CheckingPause {
        /// The resolved side.
        side: Side,
        /// The slot being recorded.
        slot: u8,
    },
    /// Starting capture, fixing the pause state if needed.
    Starting {
        /// The resolved side.
        side: Side,
        /// The slot being recorded.
        slot: u8,
    },
    /// Polling once per second for match end.
    Polling {
        /// The resolved side.
        side: Side,
        /// The slot being recorded.
        slot: u8,
    },
    /// Backing out of the finished replay.
    Closing,
    /// The replay is fully recorded and closed.
    Done,
    /// Cancellation was observed; the replay was abandoned.
    Cancelled,
}

impl Phase {
    /// Slots stay inside the team.
    pub open spec fn wf(self) -> bool {
        match self {
            Phase::Probing { side, slot } => slot < TEAM_SIZE,
            Phase::Focusing { side, slot } => slot < TEAM_SIZE,
            Phase::CheckingPause { side, slot } => slot < TEAM_SIZE,
            Phase::Starting { side, slot } => slot < TEAM_SIZE,
            Phase::Polling { side, slot } => slot < TEAM_SIZE,
            _ => true,
        }
    }
}

/// What the application observed since the last step.
#[derive(Clone, Copy, Debug, PartialEq, Eq, Structural)]
pub enum Observation {
    /// Nothing to report.
    Advanced,
    /// The side resolution over the collected probe scores.
    SideResolved(Side),
    /// Whether playback is definitely paused.
    Paused(bool),
    /// Whether the match has ended.
    GameOver(bool),
}

/// The phase after the probe of `slot` on `side`: the next slot, the other
/// side, or side resolution.
pub open spec fn spec_next_probe(side: Side, slot: u8) -> Phase {
    if slot + 1 < TEAM_SIZE {
        Phase::Probing { side, slot: (slot + 1) as u8 }
    } else if side == Side::Blue {
        Phase::Probing { side: Side::Red, slot: 0 }
    } else {
        Phase::ResolvingSide
    }
}

/// The phase after the recording of `slot` on `side` finished.
pub open spec fn spec_next_recording(side: Side, slot: u8) -> Phase {
    if slot + 1 < TEAM_SIZE {
        Phase::Focusing { side, slot: (slot + 1) as u8 }
    } else {
        Phase::Closing
    }
}

/// One transition of the per-replay state machine: from the current phase
/// and the observation it needed, to the next phase and the ordered actions
/// that move the client there. Cancellation aborts the replay's remaining
/// steps immediately; only a cancellation observed while recording still
/// stops the capture first.
pub open spec fn spec_replay_step(phase: Phase, obs: Observation, cancelled: bool, index: u8)
    -> (Phase, Seq<Action>)
{
    if cancelled && !(phase matches Phase::Polling { .. }) {
        (Phase::Cancelled, Seq::empty())
    } else {
        match phase {
            Phase::OpeningMenu => (Phase::OpeningEntry, spec_open_replays_menu()),
            Phase::OpeningEntry => (Phase::Settling, spec_open_replay_entry(index)),
            Phase::Settling => (Phase::PausingPlayback, spec_load_settle()),
            Phase::PausingPlayback => (Phase::SeekingAhead, spec_pause()),
            Phase::SeekingAhead => (
                Phase::Probing { side: Side::Blue, slot: 0 },
                spec_seek_ahead(),
            ),
            Phase::Probing { side, slot } => (
                spec_next_probe(side, slot),
                spec_probe_player(side.spec_focus_keys()[slot as int]),
            ),
            Phase::ResolvingSide => match obs {
                Observation::SideResolved(side) => (
                    Phase::Focusing { side, slot: 0 },
                    Seq::empty(),
                ),
                _ => (phase, Seq::empty()),
            },
            Phase::Focusing { side, slot } => (
                Phase::CheckingPause { side, slot },
                spec_focus_player(side.spec_focus_keys()[slot as int]),
            ),
            Phase::CheckingPause { side, slot } => (
                Phase::Starting { side, slot },
                spec_show_controls(),
            ),
            Phase::Starting { side, slot } => match obs {
                Observation::Paused(paused) => (
                    Phase::Polling { side, slot },
                    spec_start_recording(side.spec_focus_keys()[slot as int], paused),
                ),
                _ => (phase, Seq::empty()),
            },
            Phase::Polling { side, slot } => match obs {
                Observation::GameOver(true) => (
                    spec_next_recording(side, slot),
                    spec_finish_recording(),
                ),
                Observation::GameOver(false) => if cancelled {
                    (Phase::Cancelled, seq![Action::StopRecording])
                } else {
                    (phase, seq![
                        Action::Send(side.spec_focus_keys()[slot as int]),
                        Action::SleepMs(MED_SLEEP_MS),
                    ])
                },
                _ => (phase, Seq::empty()),
            },
            Phase::Closing => (Phase::Done, spec_close_replay()),
            Phase::Done => (Phase::Done, Seq::empty()),
            Phase::Cancelled => (Phase::Cancelled, Seq::empty()),
        }
    }
}

/// The phase a replay starts in.
pub fn initial_phase() -> (r: Phase)
    ensures
        r == Phase::OpeningMenu,
        r.wf(),
{
    Phase::OpeningMenu
}

/// Performs one transition of the per-replay state machine, exactly as
/// [`spec_replay_step`] describes it.
pub fn replay_step(phase: Phase, obs: Observation, cancelled: bool, index: u8)
    -> (r: (Phase, Vec<Action>))
    requires
        phase.wf(),
    ensures
        r.0 == spec_replay_step(phase, obs, cancelled, index).0,
        r.1@ == spec_replay_step(phase, obs, cancelled, index).1,
        r.0.wf(),
{
    let is_polling = matches!(phase, Phase::Polling { .. });
    if cancelled && !is_polling {
        return (Phase::Cancelled, Vec::new());
    }
    match phase {
        Phase::OpeningMenu => (Phase::OpeningEntry, open_replays_menu_script()),
        Phase::OpeningEntry => (Phase::Settling, open_replay_entry_script(index)),
        Phase::Settling => (Phase::PausingPlayback, load_settle_script()),
        Phase::PausingPlayback => (Phase::SeekingAhead, pause_script()),
        Phase::SeekingAhead => (
            Phase::Probing { side: Side::Blue, slot: 0 },
            seek_ahead_script(),
        ),
        Phase::Probing { side, slot } => {
            let keys = side.focus_keys();
            let key = keys[slot as usize].duplicate();
            let next = if slot + 1 < TEAM_SIZE as u8 {
                Phase::Probing { side, slot: slot + 1 }
            } else if matches!(side, Side::Blue) {
                Phase::Probing { side: Side::Red, slot: 0 }
            } else {
                Phase::ResolvingSide
            };
            (next, probe_player_script(key))
        },
        Phase::ResolvingSide => match obs {
            Observation::SideResolved(side) => (
                Phase::Focusing { side, slot: 0 },
                Vec::new(),
            ),
            _ => (phase, Vec::new()),
        },
        Phase::Focusing { side, slot } => {
            let keys = side.focus_keys();
            let key = keys[slot as usize].duplicate();
            (Phase::CheckingPause { side, slot }, focus_player_script(key))
        },
        Phase::CheckingPause { side, slot } => (
            Phase::Starting { side, slot },
            show_controls_script(),
        ),
        Phase::Starting { side, slot } => match obs {
            Observation::Paused(paused) => {
                let keys = side.focus_keys();
                let key = keys[slot as usize].duplicate();
                (Phase::Polling { side, slot }, start_recording_script(key, paused))
            },
            _ => (phase, Vec::new()),
        },
        Phase::Polling { side, slot } => match obs {
            Observation::GameOver(game_over) => {
                let keys = side.focus_keys();
                let key = keys[slot as usize].duplicate();
                let step = poll_step(&key, cancelled, game_over);
                if game_over {
                    let next = if slot + 1 < TEAM_SIZE as u8 {
                        Phase::Focusing { side, slot: slot + 1 }
                    } else {
                        Phase::Closing
                    };
                    (next, step.actions)
                } else if cancelled {
                    (Phase::Cancelled, step.actions)
                } else {
                    (phase, step.actions)
                }
            },
            _ => (phase, Vec::new()),
        },
        Phase::Closing => (Phase::Done, close_replay_script()),
        Phase::Done => (Phase::Done, Vec::new()),
        Phase::Cancelled => (Phase::Cancelled, Vec::new()),
    }
}

} // verus!
