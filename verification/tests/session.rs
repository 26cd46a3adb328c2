use lokin::error::LokinError;
use lokin::session::{
    same_events, validate_duration, validate_nonempty, validate_plan, EffectiveState, Plan,
    PlanItem, PlanItemStatus, PlanSource, SessionEvent, SessionId, SessionMetadata, StoredEvent,
    SCHEMA_VERSION,
};
use lokin::time::Timestamp;

fn item(description: &str, duration_minutes: u16, status: PlanItemStatus) -> PlanItem {
    PlanItem {
        description: description.to_string(),
        duration_minutes,
        status,
    }
}

#[test]
fn a_session_has_a_name() {
    let id = SessionId {
        value: 0x0123_4567_89ab_cdef_0123_4567_89ab_cdef,
    };
    assert_eq!(id.text(), "01234567-89ab-cdef-0123-456789abcdef");
    assert_eq!(
        SessionId { value: 0 }.text(),
        "00000000-0000-0000-0000-000000000000"
    );
}

#[test]
fn fresh_names_are_random() {
    let (a, b) = (SessionId::random(), SessionId::random());
    assert_ne!(a, b);
    for id in [a, b] {
        assert_eq!(uuid::Uuid::from_u128(id.value).get_version_num(), 4);
        assert_eq!(&id.text()[14..15], "4");
        assert!(["8", "9", "a", "b"].contains(&&id.text()[19..20]));
    }
}

#[test]
fn a_status_survives_its_name() {
    for (status, name) in [
        (PlanItemStatus::Pending, "pending"),
        (PlanItemStatus::Active, "active"),
        (PlanItemStatus::Completed, "completed"),
        (PlanItemStatus::Skipped, "skipped"),
    ] {
        assert_eq!(status.name(), name);
        assert_eq!(PlanItemStatus::parse(name).unwrap(), status);
    }
    match PlanItemStatus::parse("done") {
        Err(LokinError::InvalidInput(message)) => {
            assert_eq!(message, "Unknown plan item status 'done'.")
        }
        _ => panic!("no such status"),
    }
    assert!(PlanItemStatus::parse("Active").is_err());
}

#[test]
fn a_plan_adds_up() {
    let plan = Plan {
        items: vec![
            item("a", 65535, PlanItemStatus::Completed),
            item("b", 65535, PlanItemStatus::Skipped),
            item("c", 1, PlanItemStatus::Completed),
        ],
    };
    assert_eq!(plan.total_minutes(), 131_071);
    assert_eq!(plan.completed_items(), 2);
    assert!(plan.same(&plan.clone()));
    assert!(!plan.same(&Plan { items: Vec::new() }));
}

#[test]
fn what_the_user_gives_is_checked() {
    assert!(validate_nonempty("x", "Goal").is_ok());
    assert_eq!(
        validate_nonempty(" \n", "Goal").unwrap_err().message(),
        "Goal cannot be empty."
    );
    assert!(validate_duration(1, "Session duration").is_ok());
    assert_eq!(
        validate_duration(0, "Session duration")
            .unwrap_err()
            .message(),
        "Session duration must be longer than zero minutes."
    );
}

#[test]
fn the_first_fault_of_a_plan_is_told() {
    let sound = item("work", 5, PlanItemStatus::Pending);
    let blank = item("\t", 0, PlanItemStatus::Pending);
    let idle = item("rest", 0, PlanItemStatus::Pending);
    let check = |items: Vec<&PlanItem>| {
        validate_plan(&Plan {
            items: items.into_iter().cloned().collect(),
        })
    };
    assert!(check(vec![]).is_ok());
    assert!(check(vec![&sound, &sound]).is_ok());
    assert_eq!(
        check(vec![&sound, &blank, &idle]).unwrap_err().message(),
        "Plan item description cannot be empty."
    );
    assert_eq!(
        check(vec![&idle, &blank]).unwrap_err().message(),
        "Plan item duration must be longer than zero minutes."
    );
}

#[test]
fn sources_and_states_have_words() {
    assert_eq!(PlanSource::Manual.text(), "manual");
    let llm = PlanSource::Llm {
        provider: "groq".to_string(),
        model: "m1".to_string(),
    };
    assert_eq!(llm.text(), "llm (groq/m1)");
    for (state, name, active) in [
        (EffectiveState::Running, "Running", true),
        (EffectiveState::Paused, "Paused", true),
        (EffectiveState::Completed, "Completed", false),
        (EffectiveState::Stopped, "Stopped", false),
    ] {
        assert_eq!(state.name(), name);
        assert_eq!(state.is_active(), active);
    }
}

#[test]
fn events_are_stored_and_compared() {
    let now = Timestamp::from_parts(10, 0).unwrap();
    let id = SessionId { value: 1 };
    let plan = Plan {
        items: vec![item("a", 1, PlanItemStatus::Pending)],
    };
    let all = vec![
        StoredEvent::new(
            id,
            now,
            SessionEvent::SessionStarted {
                goal: "g".to_string(),
                duration_minutes: 5,
            },
        ),
        StoredEvent::new(id, now, SessionEvent::SessionPaused),
        StoredEvent::new(id, now, SessionEvent::SessionResumed),
        StoredEvent::new(
            id,
            now,
            SessionEvent::CheckpointAdded {
                note: "n".to_string(),
            },
        ),
        StoredEvent::new(
            id,
            now,
            SessionEvent::PlanCreated {
                plan: plan.clone(),
                source: PlanSource::Manual,
            },
        ),
        StoredEvent::new(
            id,
            now,
            SessionEvent::PlanRevised {
                plan,
                source: PlanSource::Manual,
            },
        ),
        StoredEvent::new(id, now, SessionEvent::SessionStopped),
    ];
    let names: Vec<&str> = all.iter().map(|event| event.event.name()).collect();
    assert_eq!(
        names,
        [
            "session_started",
            "session_paused",
            "session_resumed",
            "checkpoint_added",
            "plan_created",
            "plan_revised",
            "session_stopped"
        ]
    );
    for (i, a) in all.iter().enumerate() {
        assert_eq!(a.schema_version, SCHEMA_VERSION);
        for (j, b) in all.iter().enumerate() {
            assert_eq!(a.same(b), i == j);
        }
    }
    assert!(same_events(&all, &all));
    assert!(!same_events(&all, &all[1..]));
    assert!(!same_events(&all[..1], &all[1..2]));
}

#[test]
fn a_deadline_is_the_start_and_the_budget() {
    let metadata = SessionMetadata {
        session_id: SessionId { value: 1 },
        goal: "g".to_string(),
        duration_minutes: 25,
        start_time: Timestamp::from_parts(1_000, 7).unwrap(),
    };
    assert_eq!(metadata.deadline().parts(), (2_500, 7));
}

#[test]
fn every_failure_has_a_message() {
    let text = || "x".to_string();
    for (error, message) in [
        (LokinError::InvalidInput(text()), "x"),
        (LokinError::InvalidTransition(text()), "x"),
        (LokinError::NoActiveSession, "No active Lokin session."),
        (LokinError::UnknownSession(text()), "No session matches 'x'."),
        (LokinError::CorruptLog(text()), "Event log is invalid: x"),
        (
            LokinError::UnsupportedSchemaVersion(2),
            "Unsupported event schema version 2.",
        ),
        (
            LokinError::DataDirectoryUnavailable,
            "Could not determine the local application-data directory.",
        ),
        (
            LokinError::LlmConfiguration(text()),
            "LLM configuration error: x",
        ),
        (LokinError::LlmInference(text()), "LLM inference failed: x"),
        (
            LokinError::InteractiveInput(text()),
            "Interactive planning error: x",
        ),
        (LokinError::Io(text()), "Storage error: x"),
        (LokinError::Json(text()), "JSON error: x"),
    ] {
        assert_eq!(error.message(), message);
    }
}
