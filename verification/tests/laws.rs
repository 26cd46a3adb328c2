use lokin::commands::{decide, Command};
use lokin::error::LokinError;
use lokin::replay::reconstruct_all;
use lokin::session::{EffectiveState, SessionId, SessionProjection, StoredEvent};
use lokin::time::Timestamp;

const ID: SessionId = SessionId { value: 1 };
const OTHER: SessionId = SessionId { value: 2 };

fn at(seconds: i64) -> Timestamp {
    Timestamp::from_parts(1_760_000_000 + seconds, 0).unwrap()
}

fn start(minutes: u16) -> Command {
    Command::Start {
        goal: "goal".to_string(),
        duration_minutes: minutes,
    }
}

fn note(note: &str) -> Command {
    Command::Checkpoint {
        note: note.to_string(),
    }
}

fn add(description: &str) -> Command {
    Command::PlanAdd {
        description: description.to_string(),
        duration_minutes: 5,
    }
}

/// The log after some commands, each at its second.
fn log(commands: Vec<(i64, Command)>) -> Vec<StoredEvent> {
    let mut log = Vec::new();
    for (seconds, command) in commands {
        log.extend(decide(&log, ID, at(seconds), &command).unwrap().appended);
    }
    log
}

fn session(log: &[StoredEvent], id: SessionId, now: i64) -> SessionProjection {
    reconstruct_all(log, at(now))
        .unwrap()
        .into_iter()
        .find(|p| p.metadata.session_id == id)
        .unwrap()
}

/// A session in which a good deal happens.
fn story() -> Vec<StoredEvent> {
    log(vec![
        (0, start(10)),
        (10, note("first")),
        (20, Command::Pause { note: None }),
        (50, Command::Resume),
        (60, add("one")),
        (70, add("two")),
        (80, Command::Pause { note: Some("second".to_string()) }),
        (90, Command::Stop),
    ])
}

#[test]
fn the_deadline_stays_where_it_is() {
    let story = story();
    for n in 1..=story.len() {
        assert_eq!(
            session(&story[..n], ID, 300).metadata,
            session(&story[..1], ID, 0).metadata
        );
    }
}

#[test]
fn the_start_of_a_log_can_be_read() {
    let story = story();
    for n in 0..=story.len() {
        assert!(reconstruct_all(&story[..n], at(0)).is_ok());
    }
}

#[test]
fn what_was_recorded_stays() {
    let story = story();
    let last = session(&story, ID, 100);
    for n in 1..=story.len() {
        let p = session(&story[..n], ID, 100);
        assert!(last.checkpoints.starts_with(&p.checkpoints));
        assert!(last.plan_revisions.starts_with(&p.plan_revisions));
    }
}

#[test]
fn a_stop_is_final() {
    let mut story = story();
    let stopped = session(&story, ID, 90);
    story.extend(decide(&story, OTHER, at(95), &start(5)).unwrap().appended);
    story.extend(decide(&story, OTHER, at(96), &note("other")).unwrap().appended);
    for now in [96, 200, 100_000] {
        assert_eq!(session(&story, ID, now), stopped);
    }
}

#[test]
fn time_ends_sessions_and_starts_none() {
    let log = log(vec![(0, start(1)), (5, Command::Pause { note: None })]);
    let states: Vec<bool> = [0, 30, 59, 60, 61, 1_000]
        .iter()
        .map(|now| session(&log, ID, *now).effective_state.is_active())
        .collect();
    assert_eq!(states, [true, true, true, false, false, false]);
}

#[test]
fn elapsed_and_remaining_time_make_up_the_budget() {
    let story = story();
    for n in 1..=story.len() {
        for now in [-10, 0, 15, 35, 77, 85, 400, 700] {
            let p = session(&story[..n], ID, now);
            let budget = 600 * 1_000_000_000;
            assert_eq!(
                p.wall_clock_elapsed.nanos + p.remaining_wall_clock.nanos,
                budget
            );
            assert_eq!(
                p.active_work_duration.nanos + p.paused_duration.nanos,
                p.wall_clock_elapsed.nanos
            );
            assert!(p.remaining_wall_clock.nanos >= 0 && p.active_work_duration.nanos >= 0);
            assert!(p.paused_duration.nanos >= 0);
        }
    }
}

#[test]
fn no_time_comes_back() {
    let story = story();
    for n in 1..=story.len() {
        for (now, later) in [(0, 10), (40, 41), (85, 86), (500, 900)] {
            let (p, q) = (
                session(&story[..n], ID, now),
                session(&story[..n], ID, later),
            );
            assert!(p.wall_clock_elapsed.nanos <= q.wall_clock_elapsed.nanos);
            assert!(p.remaining_wall_clock.nanos >= q.remaining_wall_clock.nanos);
            assert!(p.paused_duration.nanos <= q.paused_duration.nanos);
            assert!(p.active_work_duration.nanos <= q.active_work_duration.nanos);
        }
    }
}

#[test]
fn one_session_is_active_at_a_time() {
    let first = log(vec![(0, start(10))]);
    assert!(matches!(
        decide(&first, OTHER, at(599), &start(10)),
        Err(LokinError::InvalidTransition(_))
    ));
    let mut second = first.clone();
    second.extend(decide(&first, OTHER, at(600), &start(10)).unwrap().appended);
    let active: Vec<SessionId> = reconstruct_all(&second, at(600))
        .unwrap()
        .iter()
        .filter(|p| p.effective_state.is_active())
        .map(|p| p.metadata.session_id)
        .collect();
    assert_eq!(active, [OTHER]);
}

#[test]
fn a_command_touches_one_session() {
    let mut log = story();
    log.extend(decide(&log, OTHER, at(95), &start(5)).unwrap().appended);
    let before = session(&log, ID, 100);
    for command in [note("n"), add("x"), Command::Pause { note: None }] {
        let outcome = decide(&log, ID, at(96), &command).unwrap();
        assert!(outcome.appended.iter().all(|e| e.session_id == OTHER));
        log.extend(outcome.appended);
        assert_eq!(session(&log, ID, 100), before);
    }
}

#[test]
fn the_life_of_one_session() {
    let mut log = Vec::new();
    let mut states = Vec::new();
    for (seconds, command) in [
        (0, start(10)),
        (1, Command::Pause { note: None }),
        (2, Command::Resume),
        (3, Command::Stop),
    ] {
        log.extend(decide(&log, ID, at(seconds), &command).unwrap().appended);
        states.push(session(&log, ID, seconds).effective_state);
    }
    assert_eq!(
        states,
        [
            EffectiveState::Running,
            EffectiveState::Paused,
            EffectiveState::Running,
            EffectiveState::Stopped
        ]
    );
}

#[test]
fn a_pause_of_no_length_leaves_no_trace() {
    let plain = log(vec![(0, start(10)), (5, note("n"))]);
    let mut paused = plain.clone();
    for command in [Command::Pause { note: None }, Command::Resume] {
        paused.extend(decide(&paused, ID, at(7), &command).unwrap().appended);
    }
    assert_eq!(session(&plain, ID, 30), session(&paused, ID, 30));
}

#[test]
fn a_note_changes_nothing_else() {
    let plain = log(vec![(0, start(10))]);
    let mut noted = plain.clone();
    noted.extend(decide(&noted, ID, at(7), &note("n")).unwrap().appended);
    let mut p = session(&noted, ID, 30);
    assert_eq!(p.checkpoints.pop().unwrap().note, "n");
    assert_eq!(p, session(&plain, ID, 30));
}

#[test]
fn a_plan_that_was_changed_is_the_plan_from_then_on() {
    let mut log = log(vec![(0, start(10)), (1, add("one"))]);
    for command in [
        add("two"),
        Command::PlanUpdate {
            item_number: 2,
            description: Some("three".to_string()),
            duration_minutes: None,
            status: None,
        },
        Command::PlanRemove { item_number: 1 },
    ] {
        let outcome = decide(&log, ID, at(5), &command).unwrap();
        log.extend(outcome.appended);
        assert_eq!(
            session(&log, ID, 6).current_plan,
            Some(outcome.plan_change.unwrap().plan)
        );
    }
}

#[test]
fn nothing_happens_before_its_turn() {
    let mut log = log(vec![(0, start(10))]);
    let refused = |log: &[StoredEvent], command: &Command| {
        decide(log, OTHER, at(5), command).unwrap_err().message()
    };
    assert_eq!(
        refused(&log, &Command::Resume),
        "The current session is already running."
    );
    assert_eq!(
        refused(&log, &start(5)),
        "A Lokin session is already active. Stop it or let its deadline pass first."
    );
    let pause = Command::Pause { note: None };
    log.extend(decide(&log, ID, at(5), &pause).unwrap().appended);
    assert_eq!(
        refused(&log, &pause),
        "The current session is already paused."
    );
}
