use lokin::error::LokinError;
use lokin::llm::{
    check_generated_plan, check_status, completion_request, describe_revision,
    initial_plan_request, plan_to_json,
    read_completion, request_failed, required_environment, revision_plan_request,
    validate_plan_fits_budget, AssistantMessage, InferenceRequest, InferenceStep, LlmConfig,
    PlanInference, Reply,
};
use lokin::session::{
    Checkpoint, EffectiveState, Plan, PlanItem, PlanItemStatus, SessionId, SessionMetadata,
    SessionProjection,
};
use lokin::time::{Duration, Timestamp};
use serde_json::Value;

fn item(description: &str, duration_minutes: u16, status: PlanItemStatus) -> PlanItem {
    PlanItem {
        description: description.to_string(),
        duration_minutes,
        status,
    }
}

fn decode(content: &str) -> Result<Plan, String> {
    let value: Value = serde_json::from_str(content).map_err(|error| error.to_string())?;
    let items = value["items"].as_array().ok_or("no items")?;
    let items = items
        .iter()
        .map(|entry| {
            item(
                entry["description"].as_str().unwrap(),
                entry["duration_minutes"].as_u64().unwrap() as u16,
                PlanItemStatus::parse(entry["status"].as_str().unwrap()).unwrap(),
            )
        })
        .collect();
    Ok(Plan { items })
}

/// Asks for a plan, with replies that are ready; returns what comes of it and the requests.
fn infer_plan(
    replies: Vec<Reply>,
    request: &InferenceRequest,
    remaining: Duration,
) -> (Result<Plan, LokinError>, Vec<InferenceRequest>) {
    let (mut inference, mut step) = PlanInference::begin(request, remaining);
    let mut replies = replies.into_iter();
    let mut requests = Vec::new();
    loop {
        match step {
            InferenceStep::Accepted(plan) => return (Ok(plan), requests),
            InferenceStep::Ask(request) => requests.push(request),
            InferenceStep::Failed(error) => return (Err(error), requests),
        }
        step = inference.receive(replies.next().unwrap());
    }
}

fn content(content: &str) -> Reply {
    Reply::Decoded(decode(content))
}

fn message<T>(result: Result<T, LokinError>) -> String {
    match result {
        Ok(_) => panic!("there should be an error"),
        Err(error) => error.message(),
    }
}

#[test]
fn valid_plan_is_decoded_without_a_second_request() {
    let (plan, requests) = infer_plan(
        vec![content(
            r#"{"items":[{"description":"Write tests","duration_minutes":15,"status":"pending"}]}"#,
        )],
        &initial_plan_request("Write tests", 20, None, &[]),
        Duration::minutes(20),
    );

    assert_eq!(plan.unwrap().items.len(), 1);
    assert_eq!(requests.len(), 1);
}

#[test]
fn over_budget_plan_gets_one_corrective_request() {
    let (plan, requests) = infer_plan(
        vec![
            content(
                r#"{"items":[{"description":"Too much","duration_minutes":30,"status":"pending"}]}"#,
            ),
            content(
                r#"{"items":[{"description":"Fits","duration_minutes":10,"status":"active"}]}"#,
            ),
        ],
        &initial_plan_request("Fit budget", 10, None, &[]),
        Duration::minutes(10),
    );

    assert_eq!(plan.unwrap().items[0].description, "Fits");
    assert_eq!(requests.len(), 2);
}

#[test]
fn groq_inference_uses_the_openai_compatible_chat_completion_shape() {
    let config = LlmConfig::from_values(
        Some("test-key"),
        Some("strict-model"),
        Some("http://127.0.0.1:5000/openai/v1"),
    )
    .unwrap_or_else(|error| panic!("{}", error.message()));
    assert_eq!(
        config.endpoint(),
        "http://127.0.0.1:5000/openai/v1/chat/completions"
    );
    assert_eq!(format!("Bearer {}", config.api_key()), "Bearer test-key");
    let request = initial_plan_request("Test mock", 10, None, &[]);
    let body = completion_request(config.model(), &request);
    assert!(body.contains("\"model\":\"strict-model\""));
    assert!(body.contains("\"response_format\""));
    assert!(body.contains("\"strict\":true"));

    check_status(200).unwrap();
    let response = read_completion(Ok(vec![AssistantMessage {
        content: Some(
            r#"{"items":[{"description":"Mocked plan","duration_minutes":5,"status":"pending"}]}"#
                .to_string(),
        ),
        refusal: None,
    }]))
    .unwrap();
    let (plan, requests) = infer_plan(
        vec![content(&response.content)],
        &request,
        Duration::minutes(10),
    );

    assert_eq!(requests, [request]);
    assert_eq!(plan.unwrap().items[0].description, "Mocked plan");
}

#[test]
fn a_failed_request_ends_the_asking() {
    let request = initial_plan_request("Goal", 10, None, &[]);
    let ten = Duration::minutes(10);
    let (result, requests) = infer_plan(
        vec![Reply::Failed(request_failed(true, ""))],
        &request,
        ten,
    );
    assert_eq!(
        message(result),
        "LLM inference failed: request timed out after 45 seconds"
    );
    assert_eq!(requests, [request.clone()]);

    let (result, requests) = infer_plan(
        vec![
            content("nonsense"),
            Reply::Failed(LokinError::LlmConfiguration("gone".to_string())),
        ],
        &request,
        ten,
    );
    assert_eq!(message(result), "LLM configuration error: gone");
    assert_eq!(requests.len(), 2);
    assert_eq!(requests[1].system_prompt, request.system_prompt);
    assert!(requests[1].user_prompt.starts_with(&request.user_prompt));
}

#[test]
fn initial_prompt_includes_context_and_feedback() {
    let request = initial_plan_request(
        "Learn Rust",
        30,
        Some("Focus on ownership"),
        &["Make the first task shorter".to_string()],
    );

    assert!(request.user_prompt.contains("Focus on ownership"));
    assert!(request.user_prompt.contains("Make the first task shorter"));
    assert!(request.system_prompt.contains("immutable"));
}

#[test]
fn the_initial_prompt_in_full() {
    let request = initial_plan_request(
        "Learn Rust",
        30,
        Some("  Focus on ownership "),
        &["Shorter".to_string(), "Simpler".to_string()],
    );
    assert_eq!(
        request.user_prompt,
        "Create an initial Lokin plan.\nGoal: Learn Rust\nHard wall-clock budget: 30 minutes\n\
         Additional context: Focus on ownership\nRefinement feedback:\nShorter\nSimpler\n"
    );
    let bare = initial_plan_request("Learn Rust", 30, Some(" \t"), &[]);
    assert_eq!(
        bare.user_prompt,
        "Create an initial Lokin plan.\nGoal: Learn Rust\nHard wall-clock budget: 30 minutes\n"
    );
    assert_eq!(bare.system_prompt, request.system_prompt);
}

#[test]
fn the_model_gets_one_correction_at_most() {
    let (result, requests) = infer_plan(
        vec![content("nonsense"), content(r#"{"items":[]}"#)],
        &initial_plan_request("Goal", 10, None, &[]),
        Duration::minutes(10),
    );
    assert_eq!(
        message(result),
        "LLM inference failed: model response contained an empty plan"
    );
    assert_eq!(requests.len(), 2);
}

#[test]
fn a_corrective_request_says_what_was_wrong() {
    let request = initial_plan_request("Goal", 10, None, &[]);
    let (mut inference, _) = PlanInference::begin(&request, Duration::minutes(10));
    let plan = Plan {
        items: vec![item("Too much", 30, PlanItemStatus::Pending)],
    };
    match inference.receive(Reply::Decoded(Ok(plan))) {
        InferenceStep::Ask(second) => {
            assert_eq!(second.system_prompt, request.system_prompt);
            assert!(second.user_prompt.starts_with(&format!(
                "{}\n\nYour previous response was rejected: LLM inference failed: model plan \
                 totals 30 minutes, exceeding the remaining wall-clock time. ",
                request.user_prompt
            )));
            assert!(second
                .user_prompt
                .ends_with("and fits the stated remaining wall-clock time."));
        }
        _ => panic!("the plan is too long"),
    }
}

#[test]
fn a_generated_plan_is_checked() {
    let ten = Duration::minutes(10);
    assert_eq!(
        message(check_generated_plan(Err("expected value".to_string()), ten)),
        "LLM inference failed: model response did not match the plan schema: expected value"
    );
    let empty = Plan { items: Vec::new() };
    assert_eq!(
        message(check_generated_plan(Ok(empty), ten)),
        "LLM inference failed: model response contained an empty plan"
    );
    let blank = Plan {
        items: vec![item(" ", 5, PlanItemStatus::Pending)],
    };
    assert_eq!(
        message(check_generated_plan(Ok(blank), ten)),
        "LLM inference failed: model response contained an invalid plan: Plan item description \
         cannot be empty."
    );
    let idle = Plan {
        items: vec![item("Rest", 0, PlanItemStatus::Pending)],
    };
    assert_eq!(
        message(check_generated_plan(Ok(idle), ten)),
        "LLM inference failed: model response contained an invalid plan: Plan item duration must \
         be longer than zero minutes."
    );
    let exact = Plan {
        items: vec![
            item("One", 4, PlanItemStatus::Pending),
            item("Two", 6, PlanItemStatus::Pending),
        ],
    };
    assert_eq!(
        check_generated_plan(Ok(exact.clone()), ten).unwrap().items,
        exact.items
    );
    assert_eq!(
        message(validate_plan_fits_budget(
            &exact,
            Duration {
                nanos: 599_999_999_999
            }
        )),
        "LLM inference failed: model plan totals 10 minutes, exceeding the remaining wall-clock \
         time"
    );
}

#[test]
fn settings_come_from_the_environment() {
    match LlmConfig::from_values(Some(" key "), Some("model\n"), None) {
        Ok(config) => {
            assert_eq!(config.model(), "model");
            assert_eq!(config.api_key(), "key");
            assert_eq!(
                config.endpoint(),
                "https://api.groq.com/openai/v1/chat/completions"
            );
        }
        Err(error) => panic!("{}", error.message()),
    }
    match LlmConfig::from_values(Some("key"), Some("model"), Some(" http://host/v1// ")) {
        Ok(config) => assert_eq!(config.endpoint(), "http://host/v1/chat/completions"),
        Err(error) => panic!("{}", error.message()),
    }
    assert_eq!(
        message(LlmConfig::from_values(Some("key"), None, None)),
        "LLM configuration error: Set LOKIN_LLM_MODEL before using LLM planning."
    );
    assert_eq!(
        message(LlmConfig::from_values(Some("key"), Some("model"), Some(" // "))),
        "LLM configuration error: LOKIN_LLM_BASE_URL cannot be empty when set."
    );
    assert_eq!(
        message(required_environment("GROQ_API_KEY", Some("  "))),
        "LLM configuration error: Set GROQ_API_KEY to a non-empty value before using LLM planning."
    );
}

#[test]
fn a_reply_is_read() {
    let reply = |content: Option<&str>, refusal: Option<&str>| AssistantMessage {
        content: content.map(str::to_string),
        refusal: refusal.map(str::to_string),
    };
    assert_eq!(
        read_completion(Ok(vec![
            reply(Some("{}"), None),
            reply(None, Some("ignored"))
        ]))
        .unwrap()
        .content,
        "{}"
    );
    assert_eq!(
        message(read_completion(Err("error decoding".to_string()))),
        "LLM inference failed: response was not valid JSON: error decoding"
    );
    assert_eq!(
        message(read_completion(Ok(Vec::new()))),
        "LLM inference failed: response did not contain a completion choice"
    );
    assert_eq!(
        message(read_completion(Ok(vec![reply(Some("{}"), Some("no"))]))),
        "LLM inference failed: model declined the request: no"
    );
    assert_eq!(
        message(read_completion(Ok(vec![reply(None, None)]))),
        "LLM inference failed: response did not contain plan content"
    );
    assert_eq!(
        message(read_completion(Ok(vec![reply(Some(" \n"), None)]))),
        "LLM inference failed: response contained empty plan content"
    );
}

#[test]
fn a_request_can_fail() {
    assert_eq!(
        request_failed(true, "whatever").message(),
        "LLM inference failed: request timed out after 45 seconds"
    );
    assert_eq!(
        request_failed(false, "connection refused").message(),
        "LLM inference failed: request could not be sent: connection refused"
    );
    assert!(check_status(200).is_ok());
    assert!(check_status(299).is_ok());
    assert_eq!(
        message(check_status(300)),
        "LLM inference failed: Groq returned HTTP 300."
    );
    assert_eq!(
        message(check_status(199)),
        "LLM inference failed: Groq returned HTTP 199."
    );
}

#[test]
fn a_plan_is_told_as_json() {
    let odd = "say \"hi\"\\\n\r\t\u{8}\u{c}\u{1}\u{1f}\u{7f}é";
    let plan = Plan {
        items: vec![
            item(odd, 5, PlanItemStatus::Pending),
            item("rest", 65535, PlanItemStatus::Skipped),
        ],
    };
    let json = plan_to_json(&plan);
    assert_eq!(
        json,
        "{\"items\":[{\"description\":\"say \\\"hi\\\"\\\\\\n\\r\\t\\b\\f\\u0001\\u001f\u{7f}é\",\
         \"duration_minutes\":5,\"status\":\"pending\"},{\"description\":\"rest\",\
         \"duration_minutes\":65535,\"status\":\"skipped\"}]}"
    );
    assert_eq!(decode(&json).unwrap(), plan);
    assert_eq!(plan_to_json(&Plan { items: Vec::new() }), "{\"items\":[]}");
}

#[test]
fn what_is_posted_is_json_of_the_expected_shape() {
    let request = InferenceRequest {
        system_prompt: "be \"brief\"".to_string(),
        user_prompt: "line\nline".to_string(),
    };
    let body: Value = serde_json::from_str(&completion_request("strict-model", &request)).unwrap();
    assert_eq!(body["model"], "strict-model");
    assert_eq!(body["messages"][0]["role"], "system");
    assert_eq!(body["messages"][0]["content"], "be \"brief\"");
    assert_eq!(body["messages"][1]["role"], "user");
    assert_eq!(body["messages"][1]["content"], "line\nline");
    assert_eq!(body["messages"].as_array().unwrap().len(), 2);
    assert_eq!(body["temperature"].as_f64().unwrap(), 0.2);
    assert_eq!(body["max_completion_tokens"], 1024);
    assert_eq!(body["stream"], false);
    let format = &body["response_format"];
    assert_eq!(format["type"], "json_schema");
    assert_eq!(format["json_schema"]["name"], "lokin_plan");
    assert_eq!(format["json_schema"]["strict"], true);
    let schema = &format["json_schema"]["schema"];
    assert_eq!(schema["type"], "object");
    assert_eq!(schema["additionalProperties"], false);
    assert_eq!(schema["required"][0], "items");
    let items = &schema["properties"]["items"];
    assert_eq!(items["type"], "array");
    assert_eq!(items["minItems"], 1);
    let entry = &items["items"];
    assert_eq!(entry["type"], "object");
    assert_eq!(entry["additionalProperties"], false);
    assert_eq!(entry["required"][0], "description");
    assert_eq!(entry["required"][1], "duration_minutes");
    assert_eq!(entry["required"][2], "status");
    assert_eq!(entry["properties"]["description"]["type"], "string");
    assert_eq!(entry["properties"]["description"]["minLength"], 1);
    assert_eq!(entry["properties"]["duration_minutes"]["type"], "integer");
    assert_eq!(entry["properties"]["duration_minutes"]["minimum"], 1);
    assert_eq!(entry["properties"]["status"]["type"], "string");
    let names: Vec<&str> = entry["properties"]["status"]["enum"]
        .as_array()
        .unwrap()
        .iter()
        .map(|name| name.as_str().unwrap())
        .collect();
    assert_eq!(names, ["pending", "active", "completed", "skipped"]);
}

#[test]
fn the_revision_prompt_in_full() {
    let start = Timestamp::from_parts(1_760_000_000, 0).unwrap();
    let mut projection = SessionProjection {
        metadata: SessionMetadata {
            session_id: SessionId { value: 7 },
            goal: "Write".to_string(),
            duration_minutes: 30,
            start_time: start,
        },
        effective_state: EffectiveState::Running,
        stopped_at: None,
        wall_clock_elapsed: Duration::minutes(10),
        remaining_wall_clock: Duration {
            nanos: 1_200_999_999_999,
        },
        active_work_duration: Duration::minutes(9),
        paused_duration: Duration::minutes(1),
        current_pause_duration: None,
        checkpoints: Vec::new(),
        current_plan: Some(Plan {
            items: vec![item("Draft", 5, PlanItemStatus::Active)],
        }),
        plan_revisions: Vec::new(),
    };
    assert_eq!(
        revision_plan_request(&projection, None, &[]).user_prompt,
        "Revise this active Lokin plan as a complete replacement snapshot.\nGoal: Write\nSession \
         budget: 30 minutes\nRemaining hard wall-clock time: 1200 seconds\nActive work: 540 \
         seconds\nPaused time: 60 seconds\nCurrent plan JSON: {\"items\":[{\"description\":\
         \"Draft\",\"duration_minutes\":5,\"status\":\"active\"}]}\nCheckpoints:\nnone\n"
    );

    projection.checkpoints = vec![
        Checkpoint {
            occurred_at: start,
            note: "one".to_string(),
        },
        Checkpoint {
            occurred_at: Timestamp::from_parts(1_760_000_000, 500_000_000).unwrap(),
            note: "two".to_string(),
        },
    ];
    let told = describe_revision(
        &projection,
        &["then".to_string(), "later".to_string()],
        None,
        &[],
    );
    assert!(told
        .user_prompt
        .ends_with("Checkpoints:\nthen: one\nlater: two\n"));
    let request = revision_plan_request(&projection, Some("why"), &["how".to_string()]);
    assert!(request.user_prompt.ends_with(
        "Checkpoints:\n2025-10-09T08:53:20+00:00: one\n2025-10-09T08:53:20.500+00:00: two\n\
         Additional context: why\nRefinement feedback:\nhow\n"
    ));
}
