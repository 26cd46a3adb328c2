use lokin::error::LokinError;
use lokin::replay::{reconstruct_all, Fault};
use lokin::session::{
    EffectiveState, Plan, PlanItem, PlanItemStatus, PlanSource, SessionEvent, SessionId,
    SessionProjection, StoredEvent,
};
use lokin::time::{Duration, Timestamp, LAST_SECOND};

const FIRST: SessionId = SessionId { value: 1 };
const SECOND: SessionId = SessionId { value: 2 };

fn at(seconds: i64) -> Timestamp {
    Timestamp::from_parts(1_760_000_000 + seconds, 0).unwrap()
}

fn event(id: SessionId, seconds: i64, event: SessionEvent) -> StoredEvent {
    StoredEvent::new(id, at(seconds), event)
}

fn started(id: SessionId, seconds: i64, minutes: u16) -> StoredEvent {
    event(
        id,
        seconds,
        SessionEvent::SessionStarted {
            goal: format!("goal {}", id.value),
            duration_minutes: minutes,
        },
    )
}

fn plan(minutes: u16) -> Plan {
    Plan {
        items: vec![PlanItem {
            description: "step".to_string(),
            duration_minutes: minutes,
            status: PlanItemStatus::Pending,
        }],
    }
}

fn created(minutes: u16) -> SessionEvent {
    SessionEvent::PlanCreated {
        plan: plan(minutes),
        source: PlanSource::Manual,
    }
}

fn revised(minutes: u16) -> SessionEvent {
    SessionEvent::PlanRevised {
        plan: plan(minutes),
        source: PlanSource::Manual,
    }
}

fn only(events: &[StoredEvent], now: i64) -> SessionProjection {
    let mut all = reconstruct_all(events, at(now)).unwrap();
    assert_eq!(all.len(), 1);
    all.remove(0)
}

fn seconds(duration: Duration) -> i128 {
    duration.nanos / 1_000_000_000
}

fn fault_of(events: &[StoredEvent]) -> String {
    match reconstruct_all(events, at(0)) {
        Err(LokinError::CorruptLog(message)) => message,
        _ => panic!("the log has a fault"),
    }
}

#[test]
fn an_empty_log_has_no_sessions() {
    assert!(reconstruct_all(&[], at(0)).unwrap().is_empty());
}

#[test]
fn a_running_session_uses_up_its_budget() {
    let log = [started(FIRST, 0, 10)];
    let p = only(&log, 90);
    assert_eq!(p.metadata.session_id, FIRST);
    assert_eq!(p.metadata.goal, "goal 1");
    assert_eq!(p.metadata.duration_minutes, 10);
    assert_eq!(p.metadata.start_time, at(0));
    assert_eq!(p.effective_state, EffectiveState::Running);
    assert_eq!(p.stopped_at, None);
    assert_eq!(seconds(p.wall_clock_elapsed), 90);
    assert_eq!(seconds(p.remaining_wall_clock), 510);
    assert_eq!(seconds(p.active_work_duration), 90);
    assert_eq!(seconds(p.paused_duration), 0);
    assert_eq!(p.current_pause_duration, None);
    assert!(p.checkpoints.is_empty() && p.plan_revisions.is_empty() && p.current_plan.is_none());
}

#[test]
fn a_pause_counts_against_the_deadline() {
    let mut log = vec![
        started(FIRST, 0, 10),
        event(FIRST, 60, SessionEvent::SessionPaused),
    ];
    let p = only(&log, 100);
    assert_eq!(p.effective_state, EffectiveState::Paused);
    assert_eq!(seconds(p.wall_clock_elapsed), 100);
    assert_eq!(seconds(p.active_work_duration), 60);
    assert_eq!(seconds(p.paused_duration), 40);
    assert_eq!(p.current_pause_duration.map(seconds), Some(40));

    log.push(event(FIRST, 120, SessionEvent::SessionResumed));
    log.push(event(FIRST, 150, SessionEvent::SessionPaused));
    log.push(event(FIRST, 160, SessionEvent::SessionResumed));
    let p = only(&log, 300);
    assert_eq!(p.effective_state, EffectiveState::Running);
    assert_eq!(p.metadata.deadline(), at(600));
    assert_eq!(seconds(p.remaining_wall_clock), 300);
    assert_eq!(seconds(p.paused_duration), 70);
    assert_eq!(seconds(p.active_work_duration), 230);
}

#[test]
fn a_session_ends_at_its_deadline() {
    let mut log = vec![started(FIRST, 0, 1)];
    assert_eq!(only(&log, 59).effective_state, EffectiveState::Running);
    let p = only(&log, 60);
    assert_eq!(p.effective_state, EffectiveState::Completed);
    assert_eq!(seconds(p.remaining_wall_clock), 0);
    assert_eq!(seconds(only(&log, 5_000).wall_clock_elapsed), 60);

    log.push(event(FIRST, 20, SessionEvent::SessionPaused));
    let p = only(&log, 5_000);
    assert_eq!(p.effective_state, EffectiveState::Completed);
    assert_eq!(p.current_pause_duration, None);
    assert_eq!(seconds(p.paused_duration), 40);
    assert_eq!(seconds(p.active_work_duration), 20);
}

#[test]
fn a_stopped_session_stands_still() {
    let log = [
        started(FIRST, 0, 10),
        event(FIRST, 30, SessionEvent::SessionPaused),
        event(FIRST, 50, SessionEvent::SessionStopped),
    ];
    for now in [50, 51, 100_000] {
        let p = only(&log, now);
        assert_eq!(p.effective_state, EffectiveState::Stopped);
        assert_eq!(p.stopped_at, Some(at(50)));
        assert_eq!(seconds(p.wall_clock_elapsed), 50);
        assert_eq!(seconds(p.remaining_wall_clock), 550);
        assert_eq!(seconds(p.paused_duration), 20);
        assert_eq!(p.current_pause_duration, None);
    }
}

#[test]
fn a_clock_that_runs_backwards_counts_for_nothing() {
    let log = [
        started(FIRST, 0, 10),
        event(FIRST, 100, SessionEvent::SessionPaused),
        event(FIRST, 40, SessionEvent::SessionResumed),
    ];
    let p = only(&log, 20);
    assert_eq!(seconds(p.wall_clock_elapsed), 100);
    assert_eq!(seconds(p.paused_duration), 0);
    assert_eq!(seconds(only(&[started(FIRST, 0, 10)], -5).wall_clock_elapsed), 0);
}

#[test]
fn notes_and_plans_are_kept() {
    let log = [
        started(FIRST, 0, 10),
        event(
            FIRST,
            1,
            SessionEvent::CheckpointAdded {
                note: "one".to_string(),
            },
        ),
        event(FIRST, 2, created(3)),
        event(
            FIRST,
            3,
            SessionEvent::CheckpointAdded {
                note: "two".to_string(),
            },
        ),
        event(FIRST, 4, revised(5)),
    ];
    let p = only(&log, 5);
    let notes: Vec<&str> = p.checkpoints.iter().map(|c| c.note.as_str()).collect();
    assert_eq!(notes, ["one", "two"]);
    assert_eq!(p.checkpoints[1].occurred_at, at(3));
    assert_eq!(p.current_plan, Some(plan(5)));
    assert_eq!(p.plan_revisions.len(), 2);
    assert!(p.plan_revisions[0].created && !p.plan_revisions[1].created);
    assert_eq!(p.plan_revisions[0].plan, plan(3));
    assert_eq!(p.plan_revisions[1].source, PlanSource::Manual);
}

#[test]
fn sessions_come_in_the_order_of_their_starts() {
    let log = [
        started(SECOND, 0, 10),
        event(SECOND, 5, SessionEvent::SessionStopped),
        started(FIRST, 6, 10),
    ];
    let all = reconstruct_all(&log, at(7)).unwrap();
    let ids: Vec<SessionId> = all.iter().map(|p| p.metadata.session_id).collect();
    assert_eq!(ids, [SECOND, FIRST]);
}

#[test]
fn every_fault_is_told() {
    let name = "00000000-0000-0000-0000-000000000001";
    let log = |events: Vec<SessionEvent>| -> Vec<StoredEvent> {
        let mut log = vec![started(FIRST, 0, 10)];
        log.extend(events.into_iter().map(|e| event(FIRST, 1, e)));
        log
    };
    for (events, fault, text) in [
        (
            vec![event(FIRST, 0, SessionEvent::SessionPaused)],
            Fault::MissingStart,
            " has an event before its start",
        ),
        (
            vec![started(FIRST, 0, 10), started(FIRST, 1, 10)],
            Fault::SecondStart,
            " starts more than once",
        ),
        (
            vec![StoredEvent::new(
                FIRST,
                Timestamp::from_parts(LAST_SECOND, 0).unwrap(),
                SessionEvent::SessionStarted {
                    goal: "g".to_string(),
                    duration_minutes: 1,
                },
            )],
            Fault::NoDeadline,
            " has a deadline outside the calendar",
        ),
        (
            log(vec![
                SessionEvent::SessionStopped,
                SessionEvent::CheckpointAdded {
                    note: "late".to_string(),
                },
            ]),
            Fault::AfterStop,
            " has an event after its stop",
        ),
        (
            log(vec![
                SessionEvent::SessionPaused,
                SessionEvent::SessionPaused,
            ]),
            Fault::AlreadyPaused,
            " is paused while it is paused",
        ),
        (
            log(vec![SessionEvent::SessionResumed]),
            Fault::NotPaused,
            " is resumed while it is running",
        ),
        (
            log(vec![created(1), created(1)]),
            Fault::SecondPlan,
            " creates a plan while it has one",
        ),
        (
            log(vec![revised(1)]),
            Fault::MissingPlan,
            " revises a plan while it has none",
        ),
    ] {
        assert_eq!(fault.text(), text);
        let message = fault_of(&events);
        assert!(message.contains(name), "{message}");
        assert!(message.ends_with(text), "{message}");
    }
}

#[test]
fn the_first_fault_is_told() {
    let log = [
        started(FIRST, 0, 10),
        event(FIRST, 1, SessionEvent::SessionResumed),
        event(SECOND, 2, SessionEvent::SessionPaused),
    ];
    assert!(fault_of(&log).ends_with(Fault::NotPaused.text()));
}
