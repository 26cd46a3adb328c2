use lokin::commands::{
    accept_goal, active_projection, check_input, checkpoint, decide, events_for_session, pause, plan_add,
    plan_index, plan_remove, plan_revise, plan_update, read_change, require_active_projection,
    require_revisable_projection, resume, run_command, start_with_llm_plan, start_without_plan,
    stop, Command, Outcome,
};
use lokin::error::LokinError;
use lokin::replay::reconstruct_all;
use lokin::session::{
    Plan, PlanItem, PlanItemStatus, PlanSource, SessionEvent, SessionId, StoredEvent,
};
use lokin::time::{Duration, Timestamp};

const ID: SessionId = SessionId { value: 1 };
const OTHER: SessionId = SessionId { value: 2 };

fn at(seconds: i64) -> Timestamp {
    Timestamp::from_parts(1_760_000_000 + seconds, 0).unwrap()
}

fn item(description: &str, duration_minutes: u16, status: PlanItemStatus) -> PlanItem {
    PlanItem {
        description: description.to_string(),
        duration_minutes,
        status,
    }
}

fn plan(items: Vec<PlanItem>) -> Plan {
    Plan { items }
}

fn stored(event: SessionEvent, seconds: i64) -> StoredEvent {
    StoredEvent::new(ID, at(seconds), event)
}

fn started(id: SessionId, minutes: u16) -> StoredEvent {
    StoredEvent::new(
        id,
        at(0),
        SessionEvent::SessionStarted {
            goal: "goal".to_string(),
            duration_minutes: minutes,
        },
    )
}

/// A session of thirty minutes with a plan of two steps.
fn planned() -> Vec<StoredEvent> {
    let plan = plan(vec![
        item("one", 10, PlanItemStatus::Pending),
        item("two", 5, PlanItemStatus::Completed),
    ]);
    vec![
        started(ID, 30),
        stored(
            SessionEvent::PlanCreated {
                plan,
                source: PlanSource::Manual,
            },
            1,
        ),
    ]
}

fn refusal(result: Result<Outcome, LokinError>) -> String {
    match result {
        Ok(_) => panic!("the command should be refused"),
        Err(error) => error.message(),
    }
}

fn no_session(result: Result<Outcome, LokinError>) -> bool {
    matches!(result, Err(LokinError::NoActiveSession))
}

#[test]
fn a_goal_is_trimmed_and_checked() {
    assert_eq!(accept_goal("  read \n", 25).unwrap(), "read");
    assert_eq!(
        accept_goal(" ", 0).unwrap_err().message(),
        "Goal cannot be empty."
    );
    assert_eq!(
        accept_goal("read", 0).unwrap_err().message(),
        "Session duration must be longer than zero minutes."
    );
}

#[test]
fn a_start_is_recorded() {
    let outcome = start_without_plan(&[], ID, at(5), "read".to_string(), 45).unwrap();
    assert_eq!(outcome.session_id, ID);
    assert_eq!(outcome.occurred_at, at(5));
    assert!(outcome.plan_change.is_none());
    assert_eq!(
        outcome.appended,
        [stored(
            SessionEvent::SessionStarted {
                goal: "read".to_string(),
                duration_minutes: 45
            },
            5
        )]
    );
}

#[test]
fn a_start_with_a_plan_is_recorded() {
    let steps = plan(vec![item("one", 10, PlanItemStatus::Pending)]);
    let outcome =
        start_with_llm_plan(&[], ID, at(5), "read".to_string(), 45, steps.clone(), "m").unwrap();
    assert_eq!(outcome.appended.len(), 2);
    assert_eq!(
        outcome.appended[1],
        stored(
            SessionEvent::PlanCreated {
                plan: steps.clone(),
                source: PlanSource::Llm {
                    provider: "groq".to_string(),
                    model: "m".to_string()
                }
            },
            5
        )
    );
    let busy = [started(OTHER, 30)];
    assert_eq!(
        refusal(start_with_llm_plan(
            &busy,
            ID,
            at(5),
            "read".to_string(),
            45,
            steps,
            "m"
        )),
        "A Lokin session is already active. Stop it or let its deadline pass first."
    );
}

#[test]
fn pausing_and_resuming() {
    let mut log = vec![started(ID, 30)];
    assert_eq!(
        refusal(resume(&log, at(1))),
        "The current session is already running."
    );
    let outcome = pause(&log, at(2), None).unwrap();
    assert_eq!(outcome.appended, [stored(SessionEvent::SessionPaused, 2)]);
    log.extend(outcome.appended);
    assert_eq!(
        refusal(pause(&log, at(3), None)),
        "The current session is already paused."
    );
    let outcome = resume(&log, at(4)).unwrap();
    assert_eq!(outcome.appended, [stored(SessionEvent::SessionResumed, 4)]);
}

#[test]
fn a_pause_can_leave_a_note() {
    let log = [started(ID, 30)];
    let outcome = pause(&log, at(2), Some("  half done ")).unwrap();
    assert_eq!(
        outcome.appended,
        [
            stored(SessionEvent::SessionPaused, 2),
            stored(
                SessionEvent::CheckpointAdded {
                    note: "half done".to_string()
                },
                2
            )
        ]
    );
    assert_eq!(
        refusal(pause(&log, at(2), Some(" "))),
        "Checkpoint note cannot be empty."
    );
}

#[test]
fn a_checkpoint_is_recorded() {
    let log = [started(ID, 30)];
    let outcome = checkpoint(&log, at(2), " note\n").unwrap();
    assert_eq!(
        outcome.appended,
        [stored(
            SessionEvent::CheckpointAdded {
                note: "note".to_string()
            },
            2
        )]
    );
    assert_eq!(
        refusal(checkpoint(&[], at(2), "")),
        "Checkpoint note cannot be empty."
    );
}

#[test]
fn a_stop_is_recorded() {
    let log = [started(ID, 30)];
    let outcome = stop(&log, at(2)).unwrap();
    assert_eq!(outcome.appended, [stored(SessionEvent::SessionStopped, 2)]);
}

#[test]
fn nothing_can_be_done_without_a_session() {
    let over = [started(ID, 1)];
    for log in [&[][..], &over[..]] {
        assert!(no_session(pause(log, at(60), None)));
        assert!(no_session(checkpoint(log, at(60), "note")));
        assert!(no_session(resume(log, at(60))));
        assert!(no_session(stop(log, at(60))));
        assert!(no_session(plan_add(log, at(60), "step", 5)));
        assert!(no_session(plan_update(log, at(60), 1, None, None, None)));
        assert!(no_session(plan_remove(log, at(60), 1)));
    }
}

#[test]
fn the_first_step_creates_the_plan() {
    let mut log = vec![started(ID, 30)];
    let outcome = plan_add(&log, at(60), " step ", 5).unwrap();
    let steps = plan(vec![item("step", 5, PlanItemStatus::Pending)]);
    assert_eq!(
        outcome.appended,
        [stored(
            SessionEvent::PlanCreated {
                plan: steps.clone(),
                source: PlanSource::Manual
            },
            60
        )]
    );
    let change = outcome.plan_change.unwrap();
    assert!(change.created);
    assert_eq!(change.plan, steps);
    assert_eq!(change.session_budget_minutes, 30);
    assert_eq!(change.remaining_wall_clock, Duration::minutes(29));

    log.extend(outcome.appended);
    let outcome = plan_add(&log, at(61), "next", 7).unwrap();
    assert!(!outcome.plan_change.unwrap().created);
    assert_eq!(
        outcome.appended,
        [stored(
            SessionEvent::PlanRevised {
                plan: plan(vec![
                    item("step", 5, PlanItemStatus::Pending),
                    item("next", 7, PlanItemStatus::Pending)
                ]),
                source: PlanSource::Manual
            },
            61
        )]
    );
    assert_eq!(
        refusal(plan_add(&log, at(61), "", 7)),
        "Plan item description cannot be empty."
    );
    assert_eq!(
        refusal(plan_add(&log, at(61), "x", 0)),
        "Plan item duration must be longer than zero minutes."
    );
}

#[test]
fn a_step_can_be_changed() {
    let log = planned();
    let outcome = plan_update(&log, at(2), 2, Some(" again "), Some(9), Some("skipped")).unwrap();
    let change = outcome.plan_change.unwrap();
    assert_eq!(
        change.plan,
        plan(vec![
            item("one", 10, PlanItemStatus::Pending),
            item("again", 9, PlanItemStatus::Skipped)
        ])
    );
    assert!(!change.created);
    let unchanged = plan_update(&log, at(2), 1, None, None, None).unwrap();
    assert_eq!(unchanged.plan_change.unwrap().plan.items[0].description, "one");
    assert_eq!(
        refusal(plan_update(&log, at(2), 1, Some(" "), Some(0), Some("done"))),
        "Unknown plan item status 'done'."
    );
    assert_eq!(
        refusal(plan_update(&log, at(2), 1, Some(" "), Some(0), None)),
        "Plan item description cannot be empty."
    );
    assert_eq!(
        refusal(plan_update(&log, at(2), 1, None, Some(0), None)),
        "Plan item duration must be longer than zero minutes."
    );
    assert_eq!(
        refusal(plan_update(&log, at(2), 3, None, None, None)),
        "Plan item 3 does not exist; choose a number from 1 to 2."
    );
    assert_eq!(
        refusal(plan_update(&[started(ID, 30)], at(2), 1, None, None, None)),
        "No plan exists yet. Add the first item with `lokin plan add`."
    );
}

#[test]
fn a_step_can_be_taken_out() {
    let mut log = planned();
    let outcome = plan_remove(&log, at(2), 1).unwrap();
    assert_eq!(
        outcome.plan_change.unwrap().plan,
        plan(vec![item("two", 5, PlanItemStatus::Completed)])
    );
    log.extend(outcome.appended);
    log.extend(plan_remove(&log, at(3), 1).unwrap().appended);
    assert_eq!(
        refusal(plan_remove(&log, at(4), 1)),
        "Plan item 1 does not exist; choose a number from 1 to 0."
    );
    assert_eq!(
        refusal(plan_remove(&[started(ID, 30)], at(2), 1)),
        "No plan exists for this session."
    );
}

#[test]
fn steps_are_numbered_from_one() {
    assert_eq!(plan_index(1, 3).unwrap(), 0);
    assert_eq!(plan_index(3, 3).unwrap(), 2);
    assert!(plan_index(0, 3).is_err());
    assert_eq!(
        plan_index(4, 3).unwrap_err().message(),
        "Plan item 4 does not exist; choose a number from 1 to 3."
    );
}

#[test]
fn adding_and_removing_a_step_changes_nothing() {
    let log = planned();
    let before = reconstruct_all(&log, at(5)).unwrap();
    let mut longer = log.clone();
    longer.extend(plan_add(&longer, at(3), "more", 4).unwrap().appended);
    longer.extend(plan_remove(&longer, at(4), 3).unwrap().appended);
    let after = reconstruct_all(&longer, at(5)).unwrap();
    assert_eq!(before[0].current_plan, after[0].current_plan);
}

#[test]
fn another_step_can_be_removed_after_one_was_added() {
    let mut log = planned();
    log.extend(plan_add(&log, at(3), " more ", 4).unwrap().appended);
    for (number, left) in [(1, ["two", "more"]), (2, ["one", "more"]), (3, ["one", "two"])] {
        let change = plan_remove(&log, at(1_700), number).unwrap().plan_change;
        let items = change.unwrap().plan.items;
        let names: Vec<&str> = items.iter().map(|item| item.description.as_str()).collect();
        assert_eq!(names, left);
    }
}

#[test]
fn a_plan_is_revised_only_if_nothing_happened_meanwhile() {
    let log = planned();
    let fresh = || plan(vec![item("new", 20, PlanItemStatus::Active)]);
    let outcome = plan_revise(&log, at(5), ID, &log, fresh(), "m").unwrap();
    assert_eq!(
        outcome.appended,
        [stored(
            SessionEvent::PlanRevised {
                plan: fresh(),
                source: PlanSource::Llm {
                    provider: "groq".to_string(),
                    model: "m".to_string()
                }
            },
            5
        )]
    );

    let mut changed = log.clone();
    changed.push(stored(SessionEvent::SessionPaused, 3));
    assert_eq!(
        refusal(plan_revise(&changed, at(5), ID, &log, fresh(), "m")),
        "The session changed while the plan was being generated. Rerun `lokin plan revise`."
    );
    assert!(no_session(plan_revise(&log, at(1_800), ID, &log, fresh(), "m")));
    assert_eq!(
        refusal(plan_revise(&log, at(700), ID, &log, fresh(), "m")),
        "LLM inference failed: model plan totals 20 minutes, exceeding the remaining wall-clock \
         time"
    );

    let mut replaced = log.clone();
    replaced.push(stored(SessionEvent::SessionStopped, 3));
    let base = replaced.clone();
    replaced.push(StoredEvent::new(
        OTHER,
        at(4),
        SessionEvent::SessionStarted {
            goal: "other".to_string(),
            duration_minutes: 30,
        },
    ));
    assert_eq!(
        refusal(plan_revise(&replaced, at(5), ID, &base, fresh(), "m")),
        "The active session changed while the plan was being generated. Rerun `lokin plan revise`."
    );
}

#[test]
fn only_a_plan_can_be_revised() {
    let bare = reconstruct_all(&[started(ID, 30)], at(1)).unwrap();
    assert_eq!(
        require_revisable_projection(&bare).unwrap_err().message(),
        "No plan exists yet. Start with `lokin plan add` or begin a new session with `--plan`."
    );
    let planned = reconstruct_all(&planned(), at(2)).unwrap();
    assert_eq!(
        require_revisable_projection(&planned)
            .unwrap()
            .metadata
            .session_id,
        ID
    );
}

#[test]
fn the_active_session_is_found() {
    let log = [started(ID, 1), started(OTHER, 30)];
    let both = reconstruct_all(&log, at(1)).unwrap();
    assert_eq!(
        active_projection(&both).unwrap_err().message(),
        "Event log is invalid: more than one session is currently active"
    );
    let one = reconstruct_all(&log, at(60)).unwrap();
    assert_eq!(
        active_projection(&one).unwrap().unwrap().metadata.session_id,
        OTHER
    );
    assert_eq!(
        require_active_projection(&one).unwrap().metadata.session_id,
        OTHER
    );
    let none = reconstruct_all(&log, at(1_800)).unwrap();
    assert!(active_projection(&none).unwrap().is_none());
    assert!(matches!(
        require_active_projection(&none),
        Err(LokinError::NoActiveSession)
    ));
}

#[test]
fn a_session_keeps_its_own_events() {
    let log = [
        started(ID, 1),
        started(OTHER, 30),
        stored(SessionEvent::SessionPaused, 3),
    ];
    let own = events_for_session(&log, ID);
    assert_eq!(own, [log[0].clone(), log[2].clone()]);
    assert!(events_for_session(&log, SessionId { value: 9 }).is_empty());
}

#[test]
fn commands_are_carried_out_by_name() {
    let mut log = Vec::new();
    let steps = [
        Command::Start {
            goal: " read ".to_string(),
            duration_minutes: 30,
        },
        Command::Pause { note: None },
        Command::Resume,
        Command::Checkpoint {
            note: "n".to_string(),
        },
        Command::PlanAdd {
            description: "step".to_string(),
            duration_minutes: 5,
        },
        Command::PlanUpdate {
            item_number: 1,
            description: None,
            duration_minutes: Some(6),
            status: None,
        },
        Command::PlanRemove { item_number: 1 },
        Command::Stop,
    ];
    for (i, command) in steps.iter().enumerate() {
        let outcome = decide(&log, ID, at(i as i64), command).unwrap();
        log.extend(outcome.appended);
    }
    let names: Vec<&str> = log.iter().map(|event| event.event.name()).collect();
    assert_eq!(
        names,
        [
            "session_started",
            "session_paused",
            "session_resumed",
            "checkpoint_added",
            "plan_created",
            "plan_revised",
            "plan_revised",
            "session_stopped"
        ]
    );
    assert!(reconstruct_all(&log, at(10)).is_ok());
}

#[test]
fn a_command_draws_its_own_time_and_name() {
    let command = Command::Start {
        goal: "read".to_string(),
        duration_minutes: 30,
    };
    let before = Timestamp::now();
    let first = run_command(&[], &command).unwrap();
    let second = run_command(&[], &command).unwrap();
    assert_ne!(first.session_id, second.session_id);
    assert!(!first.occurred_at.is_before(&before));
    assert!(!Timestamp::now().is_before(&first.occurred_at));
    assert_eq!(first.appended[0].session_id, first.session_id);
    assert!(matches!(
        run_command(&first.appended, &command),
        Err(LokinError::InvalidTransition(_))
    ));
}

#[test]
fn what_was_typed_is_looked_at_first() {
    let text = |value: &str| value.to_string();
    for (command, message) in [
        (
            Command::Start {
                goal: text(" "),
                duration_minutes: 0,
            },
            "Goal cannot be empty.",
        ),
        (
            Command::Pause {
                note: Some(text("")),
            },
            "Checkpoint note cannot be empty.",
        ),
        (
            Command::Checkpoint { note: text("\n") },
            "Checkpoint note cannot be empty.",
        ),
        (
            Command::PlanAdd {
                description: text("x"),
                duration_minutes: 0,
            },
            "Plan item duration must be longer than zero minutes.",
        ),
        (
            Command::PlanUpdate {
                item_number: 0,
                description: Some(text("")),
                duration_minutes: None,
                status: Some(text("x")),
            },
            "Unknown plan item status 'x'.",
        ),
    ] {
        assert_eq!(check_input(&command).unwrap_err().message(), message);
        for log in [&[][..], &planned()[..]] {
            assert_eq!(refusal(decide(log, OTHER, at(5), &command)), message);
        }
    }
    assert!(check_input(&Command::Pause { note: None }).is_ok());
    assert!(check_input(&Command::Stop).is_ok());
    assert!(check_input(&Command::PlanRemove { item_number: 0 }).is_ok());
}

#[test]
fn a_change_touches_what_it_names() {
    let change = read_change(Some(" b "), None, Some("active")).unwrap();
    assert_eq!(
        change.apply_to(item("a", 3, PlanItemStatus::Pending)),
        item("b", 3, PlanItemStatus::Active)
    );
    let change = read_change(None, Some(9), None).unwrap();
    assert_eq!(
        change.apply_to(item("a", 3, PlanItemStatus::Pending)),
        item("a", 9, PlanItemStatus::Pending)
    );
}
