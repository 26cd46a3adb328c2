use lokin::commands::{Command, Outcome, PlanMutationResult};
use lokin::error::LokinError;
use lokin::history::{
    answers_query, describe_dated, describe_history_row, describe_snapshot, find_by_prefix,
    find_projection, history_list, history_show, plan_show, render_history, status,
};
use lokin::render::{
    describe_outcome, describe_session, describe_start, event_detail, render_plan, render_plan_items, render_plan_warnings, render_projection,
    render_proposed_plan, render_started_session, report,
};
use lokin::replay::reconstruct_all;
use lokin::session::{
    Plan, PlanItem, PlanItemStatus, PlanSource, SessionEvent, SessionId, StoredEvent,
};
use lokin::time::{Duration, Timestamp};

const FIRST: SessionId = SessionId {
    value: 0xaaaa_0000_0000_4000_8000_0000_0000_0001,
};
const SECOND: SessionId = SessionId {
    value: 0xaaab_0000_0000_4000_8000_0000_0000_0002,
};

fn at(seconds: i64) -> Timestamp {
    Timestamp::from_parts(1_760_000_000 + seconds, 0).unwrap()
}

fn plan() -> Plan {
    Plan {
        items: vec![
            PlanItem {
                description: "one".to_string(),
                duration_minutes: 10,
                status: PlanItemStatus::Completed,
            },
            PlanItem {
                description: "two".to_string(),
                duration_minutes: 5,
                status: PlanItemStatus::Active,
            },
        ],
    }
}

/// A session that was stopped, and one that runs and has a plan.
fn log() -> Vec<StoredEvent> {
    vec![
        StoredEvent::new(
            FIRST,
            at(0),
            SessionEvent::SessionStarted {
                goal: "Write The Report".to_string(),
                duration_minutes: 10,
            },
        ),
        StoredEvent::new(FIRST, at(60), SessionEvent::SessionStopped),
        StoredEvent::new(
            SECOND,
            at(100),
            SessionEvent::SessionStarted {
                goal: "Read".to_string(),
                duration_minutes: 90,
            },
        ),
        StoredEvent::new(
            SECOND,
            at(110),
            SessionEvent::CheckpointAdded {
                note: "begun".to_string(),
            },
        ),
        StoredEvent::new(
            SECOND,
            at(120),
            SessionEvent::PlanCreated {
                plan: plan(),
                source: PlanSource::Llm {
                    provider: "groq".to_string(),
                    model: "m".to_string(),
                },
            },
        ),
        StoredEvent::new(SECOND, at(130), SessionEvent::SessionPaused),
    ]
}

#[test]
fn the_status_is_that_of_the_last_session() {
    assert_eq!(
        status(&[], at(0)).unwrap(),
        "No Lokin sessions yet. Start one with `lokin start <goal>`.\n"
    );
    assert_eq!(
        status(&log()[..2], at(100)).unwrap(),
        "No active Lokin session. Use `lokin history` to inspect past sessions.\n"
    );
    assert_eq!(
        status(&log(), at(160)).unwrap(),
        "Session: aaab0000-0000-4000-8000-000000000002\n\
         Goal: Read\n\
         State: Paused\n\
         Started: 2025-10-09T08:55:00Z\n\
         Deadline: 2025-10-09T10:25:00Z\n\
         Wall-clock elapsed: 00:01:00\n\
         Remaining wall-clock: 01:29:00\n\
         Active work: 00:00:30\n\
         Paused: 00:00:30\n\
         Current pause: 00:00:30\n\
         Checkpoints: 1\n\
         Plan: 1/2 item(s) completed\n"
    );
    let stray = [StoredEvent::new(FIRST, at(0), SessionEvent::SessionPaused)];
    assert!(matches!(
        status(&stray, at(0)),
        Err(LokinError::CorruptLog(_))
    ));
}

#[test]
fn a_stopped_session_is_shown_in_full() {
    let all = reconstruct_all(&log(), at(160)).unwrap();
    assert_eq!(
        render_projection(&all[0]),
        "Session: aaaa0000-0000-4000-8000-000000000001\n\
         Goal: Write The Report\n\
         State: Stopped\n\
         Started: 2025-10-09T08:53:20Z\n\
         Deadline: 2025-10-09T09:03:20Z\n\
         Stopped: 2025-10-09T08:54:20Z\n\
         Wall-clock elapsed: 00:01:00\n\
         Remaining wall-clock: 00:09:00\n\
         Active work: 00:01:00\n\
         Paused: 00:00:00\n\
         Checkpoints: 0\n\
         Plan: none\n"
    );
}

#[test]
fn the_plan_is_shown() {
    assert_eq!(
        plan_show(&log(), at(160)).unwrap(),
        "Plan for session aaab0000-0000-4000-8000-000000000002:\n  1. [completed] one (10m)\n  \
         2. [active] two (5m)\nSource: llm (groq/m)\nTotal planned: 15 minutes\nRemaining \
         wall-clock: 01:29:00\n"
    );
    let all = reconstruct_all(&log()[..3], at(160)).unwrap();
    assert_eq!(
        render_plan(&all[1]),
        "Plan for session aaab0000-0000-4000-8000-000000000002:\n  No plan yet. Add one with \
         `lokin plan add`.\n"
    );
    assert_eq!(
        render_plan_items(Some(&Plan { items: Vec::new() })),
        "  Empty plan.\n"
    );
    assert!(matches!(
        plan_show(&log()[..2], at(160)),
        Err(LokinError::NoActiveSession)
    ));
}

#[test]
fn a_proposal_is_shown() {
    assert_eq!(
        render_proposed_plan(&plan(), Duration::minutes(61)),
        "\nProposed plan:\n  1. [completed] one (10m)\n  2. [active] two (5m)\nTotal planned: 15 \
         minutes\nAvailable wall-clock: 01:01:00\n\n"
    );
}

#[test]
fn sessions_are_listed_from_the_last_one() {
    assert_eq!(
        history_list(&log(), at(160), None).unwrap(),
        "Lokin history (2 session(s)):\n\
         2025-10-09T08:55:00Z  aaab0000-0000-4000-8000-000000000002  Paused     budget   90m  \
         active 00:00:30  paused 00:00:30  Read\n\
         2025-10-09T08:53:20Z  aaaa0000-0000-4000-8000-000000000001  Stopped    budget   10m  \
         active 00:01:00  paused 00:00:00  Write The Report\n"
    );
    assert_eq!(
        history_list(&[], at(160), None).unwrap(),
        "No sessions found.\n"
    );
    assert_eq!(render_history(&[]), "No sessions found.\n");
}

#[test]
fn sessions_are_searched_by_goal_and_name() {
    let found = |search: &str| history_list(&log(), at(160), Some(search)).unwrap();
    assert!(found(" the REPORT ").starts_with("Lokin history (1 session(s)):\n"));
    assert!(found("AAAB").contains("Read"));
    assert!(found("aaa").starts_with("Lokin history (2 session(s)):\n"));
    assert!(found("").starts_with("Lokin history (2 session(s)):\n"));
    assert_eq!(found("0000"), "No sessions found.\n");
    assert!(answers_query("write", FIRST, "rit"));
    assert!(answers_query("", FIRST, "aaaa0000-"));
    assert!(!answers_query("Write", FIRST, "write"));
}

#[test]
fn a_session_is_found_by_the_beginning_of_its_name() {
    let all = reconstruct_all(&log(), at(160)).unwrap();
    let id = |reference: &str| {
        find_projection(&all, reference)
            .unwrap()
            .metadata
            .session_id
    };
    assert_eq!(id("aaaa"), FIRST);
    assert_eq!(id(" AAAB0000 "), SECOND);
    for session in [FIRST, SECOND] {
        assert_eq!(id(&session.text()), session);
        assert_eq!(id(&session.text().to_uppercase()), session);
    }
    assert_eq!(
        find_projection(&all, " AAA").unwrap_err().message(),
        "Session reference ' AAA' is ambiguous. Use more of the ID."
    );
    assert!(matches!(
        find_projection(&all, "Bbb"),
        Err(LokinError::UnknownSession(reference)) if reference == "Bbb"
    ));
    assert!(find_projection(&all, "").is_err());
    assert!(find_by_prefix(&all, "AAAA", "AAAA").is_err());
    assert_eq!(
        find_by_prefix(&all, "aaaa", "x").unwrap().metadata.session_id,
        FIRST
    );
}

#[test]
fn a_history_is_told_in_full() {
    let told = history_show(&log(), at(160), "aaab").unwrap();
    let summary = status(&log(), at(160)).unwrap();
    assert_eq!(
        told,
        format!(
            "{summary}\nCheckpoints:\n  2025-10-09T08:55:10Z  begun\n\nLatest plan:\n  1. \
             [completed] one (10m)\n  2. [active] two (5m)\n\nPlan snapshots:\n  1. \
             2025-10-09T08:55:20Z  created (2 item(s))\n     source: llm (groq/m)\n\nEvent \
             timeline:\n  2025-10-09T08:55:00Z  session_started — Read (90m)\n  \
             2025-10-09T08:55:10Z  checkpoint_added — begun\n  2025-10-09T08:55:20Z  plan_created \
             — 2 item(s), source: llm (groq/m)\n  2025-10-09T08:55:30Z  session_paused\n"
        )
    );
    let short = history_show(&log(), at(160), "aaaa").unwrap();
    assert!(short.contains(
        "\nCheckpoints:\n  None\n\nLatest plan:\n  No plan yet. Add one with `lokin plan add`.\n\n\
         Plan snapshots:\n  None\n\nEvent timeline:\n"
    ));
    assert!(matches!(
        history_show(&log(), at(160), "c"),
        Err(LokinError::UnknownSession(_))
    ));
}

#[test]
fn details_of_events() {
    let revised = SessionEvent::PlanRevised {
        plan: Plan { items: Vec::new() },
        source: PlanSource::Manual,
    };
    assert_eq!(event_detail(&revised), " — 0 item(s), source: manual");
    assert_eq!(event_detail(&SessionEvent::SessionResumed), "");
    assert_eq!(event_detail(&SessionEvent::SessionStopped), "");
}

fn change(budget: u16, remaining: Duration, created: bool) -> PlanMutationResult {
    PlanMutationResult {
        plan: plan(),
        created,
        session_budget_minutes: budget,
        remaining_wall_clock: remaining,
    }
}

#[test]
fn a_plan_that_is_too_long_is_warned_of() {
    let fifteen = Duration::minutes(15);
    assert_eq!(render_plan_warnings(&change(15, fifteen, false)), "");
    assert_eq!(
        render_plan_warnings(&change(14, Duration::minutes(14), false)),
        "Warning: the plan totals 15 minutes, exceeding the 14-minute session budget.\nWarning: \
         the plan exceeds the current remaining wall-clock time (00:14:00).\n"
    );
    assert_eq!(
        render_plan_warnings(&change(
            15,
            Duration {
                nanos: fifteen.nanos - 1
            },
            false
        )),
        "Warning: the plan exceeds the current remaining wall-clock time (00:14:59).\n"
    );
}

#[test]
fn every_command_is_reported() {
    let outcome = |plan_change| Outcome {
        session_id: FIRST,
        occurred_at: at(0),
        appended: Vec::new(),
        plan_change,
    };
    let name = "aaaa0000-0000-4000-8000-000000000001";
    let time = "2025-10-09T08:53:20Z";
    let fits = |created| Some(change(90, Duration::minutes(90), created));
    let begun = format!(
        "Session started.\nID: {name}\nGoal: read\nStarted: {time}\nBudget: 25 minutes (wall \
         clock)\nDeadline: 2025-10-09T09:18:20Z\n"
    );
    assert_eq!(render_started_session(FIRST, "read", 25, at(0)), begun);
    for (command, plan_change, told) in [
        (
            Command::Start {
                goal: " read ".to_string(),
                duration_minutes: 25,
            },
            None,
            begun.clone(),
        ),
        (
            Command::StartWithPlan {
                goal: "read".to_string(),
                duration_minutes: 25,
                plan: plan(),
                model: "m".to_string(),
            },
            None,
            format!("{begun}LLM plan saved from Groq (m).\n"),
        ),
        (
            Command::Pause { note: None },
            None,
            format!(
                "Session {name} paused at {time}.\nThe wall-clock deadline has not changed.\n"
            ),
        ),
        (
            Command::Pause {
                note: Some("n".to_string()),
            },
            None,
            format!(
                "Session {name} paused at {time}.\nCheckpoint recorded.\nThe wall-clock deadline \
                 has not changed.\n"
            ),
        ),
        (
            Command::Checkpoint {
                note: "n".to_string(),
            },
            None,
            format!("Checkpoint added to session {name} at {time}.\n"),
        ),
        (
            Command::Resume,
            None,
            format!("Session {name} resumed at {time}.\n"),
        ),
        (
            Command::Stop,
            None,
            format!(
                "Session {name} stopped at {time}.\nIts complete event history has been \
                 preserved.\n"
            ),
        ),
        (
            Command::PlanAdd {
                description: "x".to_string(),
                duration_minutes: 5,
            },
            fits(true),
            "Plan item added; initial snapshot saved.\n".to_string(),
        ),
        (
            Command::PlanAdd {
                description: "x".to_string(),
                duration_minutes: 5,
            },
            fits(false),
            "Plan item added; revised snapshot saved.\n".to_string(),
        ),
        (
            Command::PlanUpdate {
                item_number: 2,
                description: None,
                duration_minutes: None,
                status: None,
            },
            fits(false),
            "Plan item 2 updated; revised snapshot saved.\n".to_string(),
        ),
        (
            Command::PlanRemove { item_number: 12 },
            fits(false),
            "Plan item 12 removed; revised snapshot saved.\n".to_string(),
        ),
        (
            Command::PlanRevise {
                session_id: FIRST,
                base_session_events: Vec::new(),
                plan: plan(),
                model: "m".to_string(),
            },
            None,
            "LLM plan revision saved from Groq (m).\n".to_string(),
        ),
    ] {
        assert_eq!(report(&command, &outcome(plan_change)), told);
    }
}

#[test]
fn instants_stand_where_they_belong() {
    let all = reconstruct_all(&log(), at(160)).unwrap();
    let shown = describe_session(&all[0], "START", "END", Some("STOP"));
    assert!(shown.contains("\nStarted: START\nDeadline: END\nStopped: STOP\nWall-clock"));
    let shown = describe_session(&all[1], "START", "END", None);
    assert!(shown.contains("\nStarted: START\nDeadline: END\nWall-clock"));
    assert_eq!(
        describe_start(FIRST, "g", 1, "START", "END"),
        "Session started.\nID: aaaa0000-0000-4000-8000-000000000001\nGoal: g\nStarted: \
         START\nBudget: 1 minutes (wall clock)\nDeadline: END\n"
    );
    let outcome = Outcome {
        session_id: FIRST,
        occurred_at: at(0),
        appended: Vec::new(),
        plan_change: None,
    };
    assert_eq!(
        describe_outcome(&Command::Resume, &outcome, "NOW", ""),
        "Session aaaa0000-0000-4000-8000-000000000001 resumed at NOW.\n"
    );
    assert_eq!(
        describe_history_row(&all[1], "START"),
        "START  aaab0000-0000-4000-8000-000000000002  Paused     budget   90m  active 00:00:30  \
         paused 00:00:30  Read\n"
    );
    assert_eq!(describe_dated("NOW", "what"), "  NOW  what\n");
    assert_eq!(
        describe_snapshot(&all[1].plan_revisions[0], 3, "NOW"),
        "  3. NOW  created (2 item(s))\n     source: llm (groq/m)\n"
    );
}

#[test]
fn an_event_in_a_leap_second_is_shown_there() {
    let leap = Timestamp::from_parts(1_483_228_799, 1_500_000_000).unwrap();
    let log = [
        StoredEvent::new(
            FIRST,
            leap,
            SessionEvent::SessionStarted {
                goal: "Wait".to_string(),
                duration_minutes: 1,
            },
        ),
        StoredEvent::new(FIRST, leap, SessionEvent::SessionStopped),
    ];
    let told = history_show(&log, leap, "aaaa").unwrap();
    assert!(told.contains("\nStarted: 2016-12-31T23:59:60Z\n"));
    assert!(told.contains("\nDeadline: 2017-01-01T00:00:59Z\n"));
    assert!(told.contains("\nStopped: 2016-12-31T23:59:60Z\n"));
    assert!(told.contains("  2016-12-31T23:59:60Z  session_stopped\n"));
}
