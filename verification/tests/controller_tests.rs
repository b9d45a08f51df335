use ow_replay_renderer::controller::{
    camera_files, close_replay_script, initial_phase, mosaic_done_name,
    open_replay_entry_script, open_replays_menu_script, poll_step, rename_plan, replay_step,
    start_recording_script, Action, Job, Observation, Phase, BIG_SLEEP_MS, MED_SLEEP_MS,
};
use ow_replay_renderer::input::{ctrl, Key};
use ow_replay_renderer::side::Side;

#[test]
fn poll_continues_while_match_runs() {
    let step = poll_step(&Key::F3, false, false);
    assert!(!step.exit);
    assert_eq!(
        step.actions,
        vec![Action::Send(Key::F3), Action::SleepMs(MED_SLEEP_MS)]
    );
}

#[test]
fn poll_exits_on_match_end_with_stop_and_done_marker() {
    let step = poll_step(&Key::F3, false, true);
    assert!(step.exit);
    assert!(step.actions.contains(&Action::StopRecording));
    assert!(step.actions.contains(&Action::MarkDone));
    assert_eq!(*step.actions.last().unwrap(), Action::MarkDone);
}

#[test]
fn poll_exits_on_cancellation_within_one_interval_still_stopping() {
    let step = poll_step(&Key::F3, true, false);
    assert!(step.exit);
    // stop is still called before returning, but the artifacts stay
    // unmarked so a resumed run will not treat them as finished
    assert_eq!(step.actions, vec![Action::StopRecording]);
    assert!(!step.actions.contains(&Action::MarkDone));
}

#[test]
fn cancellation_during_finished_match_still_marks() {
    let step = poll_step(&Key::F3, true, true);
    assert!(step.exit);
    assert!(step.actions.contains(&Action::StopRecording));
}

#[test]
fn open_replay_entry_descends_per_row() {
    let script = open_replay_entry_script(3);
    assert_eq!(
        script,
        vec![
            Action::Send(Key::Down),
            Action::Send(Key::Down),
            Action::Send(Key::Down),
            Action::Send(Key::Tab),
            Action::Send(Key::Space),
        ]
    );
}

#[test]
fn open_replays_menu_navigates_and_clicks_tab() {
    let script = open_replays_menu_script();
    assert_eq!(script[0], Action::AwaitFocus);
    assert_eq!(script[script.len() - 2], Action::Click(380, 62));
    assert_eq!(
        script
            .iter()
            .filter(|a| **a == Action::Send(Key::Up))
            .count(),
        4
    );
}

#[test]
fn start_recording_fixes_unconfirmed_pause() {
    let unpaused = start_recording_script(Key::F1, false);
    assert_eq!(unpaused[0], Action::Send(ctrl(Key::P)));
    assert_eq!(unpaused[1], Action::Send(ctrl(Key::Left)));
    let paused = start_recording_script(Key::F1, true);
    assert_eq!(paused.len() + 2, unpaused.len());
    assert!(paused.contains(&Action::StartRecording));
}

#[test]
fn close_replay_backs_out_to_menu() {
    let script = close_replay_script();
    assert!(script.contains(&Action::Send(Key::Escape)));
    assert_eq!(script[0], Action::SleepMs(BIG_SLEEP_MS));
}

#[test]
fn job_records_oldest_replay_first() {
    let mut job = Job::new(vec![1, 2, 3]);
    assert_eq!(job.remaining_count(), 3);
    assert_eq!(job.next_replay(), Some(3));
    assert_eq!(job.next_replay(), Some(2));
    assert_eq!(job.next_replay(), Some(1));
    assert_eq!(job.next_replay(), None);
    assert_eq!(job.remaining_count(), 0);
}

#[test]
fn rename_plan_marks_only_unmarked_files() {
    let files = vec![
        String::from("a.mkv"),
        String::from("done_b.mkv"),
        String::from("c.flv"),
    ];
    let plan = rename_plan(&files);
    assert_eq!(
        plan,
        vec![
            (String::from("a.mkv"), String::from("done_a.mkv")),
            (String::from("c.flv"), String::from("done_c.flv")),
        ]
    );
}

#[test]
fn camera_files_skip_derived_outputs() {
    let files = vec![
        String::from("cam1.mkv"),
        String::from("mosaic.mkv"),
        String::from("final.mkv"),
        String::from("cam2.mkv"),
    ];
    assert_eq!(
        camera_files(&files),
        vec![String::from("cam1.mkv"), String::from("cam2.mkv")]
    );
}

#[test]
fn mosaic_done_name_embeds_directory() {
    assert_eq!(
        mosaic_done_name("2020-05-01 10-00-00"),
        "done_mosaic_2020-05-01 10-00-00.mkv"
    );
}

#[test]
fn replay_machine_walks_the_full_sequence() {
    let mut phase = initial_phase();
    let mut steps = 0usize;
    let mut recordings = 0usize;
    let mut probes = 0usize;
    loop {
        let obs = match phase {
            Phase::ResolvingSide => Observation::SideResolved(Side::Red),
            Phase::Starting { .. } => Observation::Paused(true),
            Phase::Polling { .. } => Observation::GameOver(true),
            _ => Observation::Advanced,
        };
        if let Phase::Probing { .. } = phase {
            probes += 1;
        }
        if let Phase::Polling { .. } = phase {
            recordings += 1;
        }
        let (next, _actions) = replay_step(phase, obs, false, 4);
        steps += 1;
        assert!(steps < 100, "the machine must terminate");
        if next == Phase::Done {
            break;
        }
        phase = next;
    }
    // twelve probes, six recorded players
    assert_eq!(probes, 12);
    assert_eq!(recordings, 6);
}

#[test]
fn replay_machine_polls_until_match_end() {
    let polling = Phase::Polling { side: Side::Blue, slot: 2 };
    let (next, actions) = replay_step(polling, Observation::GameOver(false), false, 1);
    assert_eq!(next, polling);
    assert_eq!(actions, vec![Action::Send(Key::F3), Action::SleepMs(MED_SLEEP_MS)]);
    let (after, finish) = replay_step(polling, Observation::GameOver(true), false, 1);
    assert_eq!(after, Phase::Focusing { side: Side::Blue, slot: 3 });
    assert!(finish.contains(&Action::MarkDone));
}

#[test]
fn replay_machine_cancellation_aborts_but_stops_capture() {
    // cancelled mid-poll: the capture is still stopped, nothing is marked
    let polling = Phase::Polling { side: Side::Red, slot: 0 };
    let (next, actions) = replay_step(polling, Observation::GameOver(false), true, 1);
    assert_eq!(next, Phase::Cancelled);
    assert_eq!(actions, vec![Action::StopRecording]);
    // cancelled at a navigation checkpoint: clean abandonment
    let (next2, actions2) = replay_step(Phase::Settling, Observation::Advanced, true, 1);
    assert_eq!(next2, Phase::Cancelled);
    assert!(actions2.is_empty());
}
